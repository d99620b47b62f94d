//! Laws of publishing: what the body of a published scene says of each light, and when there is
//! one.

use vstd::prelude::*;
use crate::bridge;
use crate::host::{
    SceneActionView, SceneEffectView, SceneMemberView, ScenePaletteColorView, SceneRequestView,
};
use crate::json;
use crate::json::{JView, Members, NumberView};
use crate::laws::command;
use crate::number;
use crate::publish;
use crate::text;

verus! {

/// Whether a stored command has a say in a field of what a light is to do.
pub open spec fn sets(stored: SceneActionView, field: Seq<char>) -> bool {
    if field == "on"@ {
        stored.command == "on"@ || stored.command == "off"@ || stored.command == "set_level"@
    } else if field == "dimming"@ {
        stored.command == "set_level"@ && level_asked(stored) > 0
    } else if field == "color_temperature"@ {
        stored.command == "set_cct"@
    } else {
        field == "color"@ && stored.command == "set_color"@
    }
}

/// The level that a stored command asks for: at most full, and nothing where it names none.
pub open spec fn level_asked(stored: SceneActionView) -> nat {
    match command::whole_arg(stored.args, "level"@) {
        Some(n) => if n < 100 {
            n as nat
        } else {
            100
        },
        None => 0,
    }
}

/// The colour temperature that a stored command asks for.
pub open spec fn kelvin_asked(stored: SceneActionView) -> u64 {
    match command::whole_arg(stored.args, "kelvin"@) {
        Some(kelvin) => kelvin,
        None => 2700,
    }
}

/// Whether a value is what a stored command makes of a field.
pub open spec fn is_set(value: JView, stored: SceneActionView, field: Seq<char>) -> bool {
    if field == "on"@ {
        value == JView::Obj(
            seq![
                (
                    "on"@,
                    JView::Bool(
                        stored.command == "on"@ || (stored.command == "set_level"@ && level_asked(
                            stored,
                        ) > 0),
                    ),
                ),
            ],
        )
    } else if field == "dimming"@ {
        value == JView::Obj(
            seq![
                (
                    "brightness"@,
                    JView::Num(NumberView::Float(text::decimal(level_asked(stored)) + ".0"@)),
                ),
            ],
        )
    } else if field == "color_temperature"@ {
        exists|mirek: u64|
            value == JView::Obj(seq![("mirek"@, JView::Num(NumberView::PosInt(mirek)))])
                && #[trigger] command::in_mireds(kelvin_asked(stored), mirek)
    } else {
        &&& value.get2("xy"@, "x"@) == Some(JView::Num(stored.x))
        &&& value.get2("xy"@, "y"@) == Some(JView::Num(stored.y))
    }
}

/// Whether the command at `k` is the last of the first `n` that has a say in a field.
pub open spec fn is_last(stored: Seq<SceneActionView>, n: nat, k: int, field: Seq<char>) -> bool {
    &&& 0 <= k < n
    &&& sets(stored[k], field)
    &&& forall|j: int| k < j < n ==> !sets(#[trigger] stored[j], field)
}

/// Whether none of the first `n` commands has a say in a field.
pub open spec fn is_unset(stored: Seq<SceneActionView>, n: nat, field: Seq<char>) -> bool {
    forall|j: int| 0 <= j < n ==> !sets(#[trigger] stored[j], field)
}

/// Whether what a light is to do follows its commands: each field is what the last command with a
/// say in it makes of it, and a field that none has a say in is not there.
pub open spec fn follows(state: Members, stored: Seq<SceneActionView>, n: nat) -> bool {
    &&& forall|k: int, field: Seq<char>| #[trigger]
        is_last(stored, n, k, field) ==> json::lookup(state, field) is Some && is_set(
            json::lookup(state, field)->0,
            stored[k],
            field,
        )
    &&& forall|field: Seq<char>|
        field != "effects"@ && #[trigger] is_unset(stored, n, field) ==> json::lookup(
            state,
            field,
        ) is None
}

proof fn words()
    ensures
        "on"@[0] == 'o' && "on"@.len() == 2,
        "off"@[0] == 'o' && "off"@.len() == 3,
        "set_level"@.len() == 9 && "set_level"@[4] == 'l',
        "set_color"@.len() == 9 && "set_color"@[4] == 'c',
        "set_cct"@.len() == 7,
        "dimming"@.len() == 7 && "dimming"@[0] == 'd',
        "color"@.len() == 5 && "color"@[0] == 'c',
        "color_temperature"@.len() == 17 && "color_temperature"@[0] == 'c',
        "effects"@.len() == 7 && "effects"@[0] == 'e',
        "x"@[0] == 'x' && "y"@[0] == 'y',
{
    reveal_strlit("on");
    reveal_strlit("off");
    reveal_strlit("set_level");
    reveal_strlit("set_color");
    reveal_strlit("set_cct");
    reveal_strlit("dimming");
    reveal_strlit("color");
    reveal_strlit("color_temperature");
    reveal_strlit("effects");
    reveal_strlit("x");
    reveal_strlit("y");
}

proof fn command_sets(before: Members, stored: SceneActionView, field: Seq<char>)
    ensures
        sets(stored, field) ==> json::lookup(publish::commanded(before, stored), field) is Some
            && is_set(json::lookup(publish::commanded(before, stored), field)->0, stored, field),
        !sets(stored, field) ==> json::lookup(publish::commanded(before, stored), field)
            == json::lookup(before, field),
{
    broadcast use {json::lookup_put, json::one_is_one};

    words();
    if stored.command == "set_cct"@ {
        let kelvin = kelvin_asked(stored);
        let mirek = number::mirek_of(kelvin);
        command::mireds(kelvin);
        assert(command::in_mireds(kelvin_asked(stored), mirek));
        assert(publish::tempered(kelvin) == JView::Obj(
            seq![("mirek"@, JView::Num(NumberView::PosInt(mirek)))],
        ));
    }
    if stored.command == "set_color"@ {
        let value = publish::gamut_point(stored.x, stored.y);
        let point = json::put(json::one("x"@, JView::Num(stored.x)), "y"@, JView::Num(stored.y));
        json::lookup_put(seq![], "xy"@, JView::Obj(point), "xy"@);
        json::lookup_put(seq![], "x"@, JView::Num(stored.x), "x"@);
        assert(value.get2("xy"@, "x"@) == Some(JView::Num(stored.x)));
        assert(value.get2("xy"@, "y"@) == Some(JView::Num(stored.y)));
    }
    if stored.command == "set_level"@ {
        assert(publish::stored_level(stored.args) as nat == level_asked(stored));
    }
}

proof fn commands_are_followed(stored: Seq<SceneActionView>, n: nat)
    requires
        n <= stored.len(),
    ensures
        follows(publish::commanded_upto(stored, n), stored, n),
        json::lookup(publish::commanded_upto(stored, n), "effects"@) is None,
    decreases n,
{
    let state = publish::commanded_upto(stored, n);
    words();
    if n > 0 {
        let m = (n - 1) as nat;
        commands_are_followed(stored, m);
        let before = publish::commanded_upto(stored, m);
        assert forall|k: int, field: Seq<char>| #[trigger]
            is_last(stored, n, k, field) implies json::lookup(state, field) is Some && is_set(
            json::lookup(state, field)->0,
            stored[k],
            field,
        ) by {
            command_sets(before, stored[n - 1], field);
            if k < m {
                assert(is_last(stored, m, k, field));
            }
        }
        assert forall|field: Seq<char>|
            field != "effects"@ && #[trigger] is_unset(stored, n, field) implies json::lookup(
            state,
            field,
        ) is None by {
            command_sets(before, stored[n - 1], field);
            assert(is_unset(stored, m, field));
        }
        command_sets(before, stored[n - 1], "effects"@);
    }
}

/// Whether the request at `k` is the last that asks for an effect for a device.
pub open spec fn is_last_request(effects: Seq<SceneEffectView>, k: int, device: u32) -> bool {
    &&& 0 <= k < effects.len()
    &&& effects[k].device == device
    &&& forall|j: int| k < j < effects.len() ==> (#[trigger] effects[j]).device != device
}

/// Whether an effect is asked for a device.
pub open spec fn is_requested(effects: Seq<SceneEffectView>, device: u32) -> bool {
    exists|k: int| 0 <= k < effects.len() && (#[trigger] effects[k]).device == device
}

proof fn request_is_found(effects: Seq<SceneEffectView>, n: nat, device: u32)
    requires
        n <= effects.len(),
        forall|j: int| n <= j < effects.len() ==> (#[trigger] effects[j]).device != device,
    ensures
        publish::effect_for(effects, n, device) is Some <==> is_requested(effects, device),
        publish::effect_for(effects, n, device) matches Some(name) ==> exists|k: int| #[trigger]
            is_last_request(effects, k, device) && effects[k].effect == name,
    decreases n,
{
    if n > 0 {
        if effects[n - 1].device == device {
            assert(is_last_request(effects, n - 1, device));
        } else {
            request_is_found(effects, (n - 1) as nat, device);
        }
    }
}

proof fn last_request_is_one(effects: Seq<SceneEffectView>, i: int, k: int, device: u32)
    requires
        is_last_request(effects, i, device),
        is_last_request(effects, k, device),
    ensures
        i == k,
{
    if i < k {
        assert(effects[k].device != device);
    } else if k < i {
        assert(effects[i].device != device);
    }
}

/// Whether a member of a scene has anything to do: a stored command that sets something, or an
/// effect asked for its device.
pub open spec fn is_busy(member: SceneMemberView, effects: Seq<SceneEffectView>) -> bool {
    is_requested(effects, member.device) || exists|j: int, field: Seq<char>|
        0 <= j < member.actions.len() && #[trigger] sets(member.actions[j], field)
}

/// Whether an action is that of a member: it goes to the member's light, does what its stored
/// commands say, has an effect exactly where one is asked for the member's own device, and then the
/// one that is asked for it last.
pub open spec fn is_action(
    action: JView,
    member: SceneMemberView,
    effects: Seq<SceneEffectView>,
) -> bool {
    &&& action.get2("target"@, "rid"@) == Some(
        match json::lookup(member.instance.properties, "Light id"@) {
            Some(JView::Str(id)) => JView::Str(id),
            _ => JView::Str(""@),
        },
    )
    &&& action.get2("target"@, "rtype"@) == Some(JView::Str("light"@))
    &&& action.get("action"@) is Some
    &&& action.get("action"@)->0 matches JView::Obj(state) && follows(
        state,
        member.actions,
        member.actions.len(),
    )
    &&& action.get2("action"@, "effects"@) is Some <==> is_requested(effects, member.device)
    &&& forall|k: int| #[trigger]
        is_last_request(effects, k, member.device) ==> action.get2("action"@, "effects"@) == Some(
            JView::Obj(seq![("effect"@, JView::Str(effects[k].effect))]),
        )
}

proof fn something_is_found(state: Members)
    requires
        state.len() > 0,
    ensures
        json::lookup(state, state[0].0) is Some,
{
    let key = state[0].0;
    assert(json::find(state, 0, key) is None);
    assert(json::find(state, 1, key) is Some);
    json::find_stays(state, 1, state.len(), key);
}

proof fn action_keys()
    ensures
        "target"@[0] == 't',
        "action"@[0] == 'a',
        "rid"@.len() == 3,
        "rtype"@.len() == 5,
{
    reveal_strlit("target");
    reveal_strlit("action");
    reveal_strlit("rid");
    reveal_strlit("rtype");
}

proof fn sets_means_found(state: Members, stored: Seq<SceneActionView>, n: nat, field: Seq<char>)
    requires
        follows(state, stored, n),
        !is_unset(stored, n, field),
    ensures
        json::lookup(state, field) is Some,
{
    let k = last_setting(stored, n, field);
    assert(is_last(stored, n, k, field));
}

proof fn last_setting(stored: Seq<SceneActionView>, n: nat, field: Seq<char>) -> (k: int)
    requires
        !is_unset(stored, n, field),
    ensures
        is_last(stored, n, k, field),
    decreases n,
{
    let j = choose|j: int| 0 <= j < n && sets(#[trigger] stored[j], field);
    if sets(stored[n - 1], field) {
        n - 1
    } else {
        assert(!is_unset(stored, (n - 1) as nat, field));
        last_setting(stored, (n - 1) as nat, field)
    }
}

proof fn member_action(member: SceneMemberView, effects: Seq<SceneEffectView>)
    ensures
        ({
            let effect = publish::effect_for(effects, effects.len(), member.device);
            match publish::light_action(member, effect) {
                Some(action) => is_busy(member, effects) && is_action(action, member, effects),
                None => !is_busy(member, effects),
            }
        }),
{
    broadcast use {json::lookup_put, json::one_is_one};

    words();
    action_keys();
    let stored = member.actions;
    let n = stored.len();
    commands_are_followed(stored, n);
    request_is_found(effects, effects.len(), member.device);
    let effect = publish::effect_for(effects, effects.len(), member.device);
    let plain = publish::commanded_upto(stored, n);
    let state = publish::light_state(member, effect);
    assert forall|field: Seq<char>| field != "effects"@ implies #[trigger] json::lookup(
        state,
        field,
    ) == json::lookup(plain, field) by {}
    assert forall|k: int, field: Seq<char>| #[trigger] is_last(stored, n, k, field) implies field
        != "effects"@ by {}
    assert(follows(state, stored, n));
    if state.len() == 0 {
        assert(forall|key: Seq<char>| json::lookup(state, key) is None);
        if is_requested(effects, member.device) {
            assert(json::lookup(state, "effects"@) is Some);
        }
        if exists|j: int, field: Seq<char>| 0 <= j < n && #[trigger] sets(stored[j], field) {
            let (j, field) = choose|j: int, field: Seq<char>|
                0 <= j < n && #[trigger] sets(stored[j], field);
            assert(!is_unset(stored, n, field));
            sets_means_found(state, stored, n, field);
        }
    } else {
        something_is_found(state);
        let field = state[0].0;
        if field == "effects"@ {
            assert(effect is Some);
        } else {
            assert(!is_unset(stored, n, field));
            let j = choose|j: int| 0 <= j < n && sets(#[trigger] stored[j], field);
            assert(sets(member.actions[j], field));
        }
        let action = publish::light_action(member, effect)->0;
        assert(action.get("action"@) == Some(JView::Obj(state)));
        assert forall|k: int| #[trigger]
            is_last_request(effects, k, member.device) implies action.get2("action"@, "effects"@)
            == Some(JView::Obj(seq![("effect"@, JView::Str(effects[k].effect))])) by {
            assert(is_requested(effects, member.device));
            let i = choose|i: int| #[trigger]
                is_last_request(effects, i, member.device) && effects[i].effect == effect->0;
            last_request_is_one(effects, i, k, member.device);
        }
    }
}

/// Whether actions are those of the members that have anything to do, in their order.
pub open spec fn are_actions(
    actions: Seq<JView>,
    members: Seq<SceneMemberView>,
    effects: Seq<SceneEffectView>,
) -> bool {
    let busy = members.filter(|m: SceneMemberView| is_busy(m, effects));
    &&& actions.len() == busy.len()
    &&& forall|k: int| 0 <= k < busy.len() ==> is_action(#[trigger] actions[k], busy[k], effects)
}

proof fn members_act(members: Seq<SceneMemberView>, effects: Seq<SceneEffectView>, n: nat)
    requires
        n <= members.len(),
    ensures
        are_actions(
            publish::member_actions(members, effects, n),
            members.take(n as int),
            effects,
        ),
    decreases n,
{
    let busy = |m: SceneMemberView| is_busy(m, effects);
    reveal(Seq::filter);
    if n > 0 {
        members_act(members, effects, (n - 1) as nat);
        member_action(members[n - 1], effects);
        assert(members.take(n as int).drop_last() =~= members.take(n - 1));
        assert(members.take(n as int).last() == members[n - 1]);
    }
}

proof fn body_keys()
    ensures
        "metadata"@[0] == 'm',
        "group"@[0] == 'g',
        "actions"@[0] == 'a' && "actions"@[1] == 'c',
        "palette"@[0] == 'p',
        "speed"@[0] == 's',
        "auto_dynamic"@[0] == 'a' && "auto_dynamic"@[1] == 'u',
        "name"@[0] == 'n',
        "appdata"@[0] == 'a',
        "color"@[0] == 'c',
        "dimming"@[0] == 'd',
        "effects"@[0] == 'e',
{
    reveal_strlit("metadata");
    reveal_strlit("group");
    reveal_strlit("actions");
    reveal_strlit("palette");
    reveal_strlit("speed");
    reveal_strlit("auto_dynamic");
    reveal_strlit("name");
    reveal_strlit("appdata");
    reveal_strlit("color");
    reveal_strlit("dimming");
    reveal_strlit("effects");
}

/// A published scene has one action for each of its lights that has anything to do, in their order
/// and no other. Each goes to the member's own light and does what its stored commands say. It has
/// an effect exactly where one is asked for the member's own device, and then the last one asked
/// for it.
pub proof fn a_published_scene_acts_light_by_light(request: SceneRequestView, group: JView)
    ensures
        json::lookup(publish::body_of(request, group), "actions"@) matches Some(JView::Arr(actions))
            && are_actions(actions, request.members, request.animation.effects),
{
    broadcast use json::lookup_put;

    body_keys();
    members_act(request.members, request.animation.effects, request.members.len());
    assert(request.members.take(request.members.len() as int) =~= request.members);
}

/// Whether a light has reported that it can play an effect.
pub open spec fn has_reported(member: SceneMemberView, effect: Seq<char>) -> bool {
    json::lookup(member.instance.scratch, "hue_effects_v2"@) matches Some(JView::Arr(values))
        && values.contains(JView::Str(effect))
}

/// The texts of an array are in it, and all of them are.
pub proof fn texts_are_those_there(items: Seq<JView>, n: nat, s: Seq<char>)
    requires
        n <= items.len(),
    ensures
        json::strings_upto(items, n).contains(s) <==> items.take(n as int).contains(JView::Str(s)),
    decreases n,
{
    if n > 0 {
        texts_are_those_there(items, (n - 1) as nat, s);
        let before = json::strings_upto(items, (n - 1) as nat);
        match items[n - 1] {
            JView::Str(t) => {
                text::contains_push(before, t, s);
            },
            _ => {},
        }
        let less = items.take(n - 1);
        let all = items.take(n as int);
        if less.contains(JView::Str(s)) {
            let k = less.index_of(JView::Str(s));
            assert(all[k] == JView::Str(s));
        }
        if all.contains(JView::Str(s)) {
            let k = all.index_of(JView::Str(s));
            if k < n - 1 {
                assert(less[k] == JView::Str(s));
            }
        }
        if items[n - 1] == JView::Str(s) {
            assert(all[n - 1] == JView::Str(s));
        }
    }
}

/// The effects that a member can play are those its light has reported, ascending and each once.
pub proof fn effects_are_those_reported(member: SceneMemberView, effect: Seq<char>)
    ensures
        publish::effects_of(member).contains(effect) <==> has_reported(member, effect),
        text::is_ascending(publish::effects_of(member)),
{
    let items = bridge::cached_items(member.instance, "hue_effects_v2"@);
    let list = json::strings(items);
    texts_are_those_there(items, items.len(), effect);
    assert(items.take(items.len() as int) =~= items);
    text::ascending_keeps_strings(list, list.len());
    assert(list.take(list.len() as int) =~= list);
}

/// Whether a member is the first of its device.
pub open spec fn is_first_of(members: Seq<SceneMemberView>, i: int, device: u32) -> bool {
    &&& 0 <= i < members.len()
    &&& members[i].device == device
    &&& forall|j: int| 0 <= j < i ==> (#[trigger] members[j]).device != device
}

pub(crate) proof fn member_is_first(members: Seq<SceneMemberView>, n: nat, device: u32)
    requires
        n <= members.len(),
    ensures
        match publish::member_of(members, n, device) {
            Some(m) => exists|i: int| #[trigger] is_first_of(members, i, device) && i < n
                && members[i] == m,
            None => forall|j: int| 0 <= j < n ==> (#[trigger] members[j]).device != device,
        },
    decreases n,
{
    if n > 0 {
        member_is_first(members, (n - 1) as nat, device);
        if publish::member_of(members, (n - 1) as nat, device) is None && members[n - 1].device
            == device {
            assert(is_first_of(members, n - 1, device));
        }
    }
}

/// Whether an effect can be played: it is for a light of the scene that has reported it.
pub open spec fn can_be_played(
    members: Seq<SceneMemberView>,
    requested: SceneEffectView,
) -> bool {
    exists|i: int| #[trigger]
        is_first_of(members, i, requested.device) && has_reported(members[i], requested.effect)
}

pub(crate) proof fn effect_is_checked(members: Seq<SceneMemberView>, requested: SceneEffectView)
    ensures
        publish::effect_problem(members, requested) is None <==> can_be_played(members, requested),
{
    member_is_first(members, members.len(), requested.device);
    match publish::member_of(members, members.len(), requested.device) {
        Some(m) => {
            effects_are_those_reported(m, requested.effect);
            let i = choose|i: int| #[trigger]
                is_first_of(members, i, requested.device) && i < members.len() && members[i] == m;
            if can_be_played(members, requested) {
                let k = choose|k: int| #[trigger]
                    is_first_of(members, k, requested.device) && has_reported(
                        members[k],
                        requested.effect,
                    );
                if i < k {
                    assert(members[i].device != requested.device);
                } else if k < i {
                    assert(members[k].device != requested.device);
                }
            }
        },
        None => {},
    }
}

pub(crate) proof fn effects_are_checked(members: Seq<SceneMemberView>, effects: Seq<SceneEffectView>, n: nat)
    requires
        n <= effects.len(),
    ensures
        publish::effects_problem(members, effects, n) is None <==> forall|k: int|
            0 <= k < n ==> can_be_played(members, #[trigger] effects[k]),
    decreases n,
{
    if n > 0 {
        effects_are_checked(members, effects, (n - 1) as nat);
        effect_is_checked(members, effects[n - 1]);
        if forall|k: int| 0 <= k < n ==> can_be_played(members, #[trigger] effects[k]) {
            assert(can_be_played(members, effects[n - 1]));
        }
    }
}

proof fn ascending_is_distinct(list: Seq<Seq<char>>)
    requires
        text::is_ascending(list),
    ensures
        list.no_duplicates(),
{
    assert forall|i: int, j: int| 0 <= i < j < list.len() implies list[i] != list[j] by {
        text::less_irreflexive(list[i], 0);
        assert(text::less(list[i], list[j]));
    }
}

pub(crate) proof fn distinct_is_as_many(effects: Seq<SceneEffectView>)
    ensures
        publish::distinct_effects(effects).len() == effects.map_values(
            |e: SceneEffectView| e.effect,
        ).to_set().len(),
{
    let names = publish::effect_names(effects);
    text::ascending_keeps_strings(names, names.len());
    assert(names.take(names.len() as int) =~= names);
    let distinct = publish::distinct_effects(effects);
    ascending_is_distinct(distinct);
    distinct.unique_seq_to_set();
    assert(distinct.to_set() =~= names.to_set());
}

/// Whether a number is at least nothing and at most one.
pub open spec fn is_part(n: NumberView) -> bool {
    number::decimal_of(n) matches Some(d) && if d.neg {
        d.digits == 0
    } else if d.exp >= 0 {
        d.digits * number::pow10(d.exp as nat) <= 1
    } else {
        d.digits <= number::pow10((-d.exp) as nat)
    }
}

pub(crate) proof fn speed_is_part(request: SceneRequestView)
    ensures
        request.animation.speed matches Some(speed) ==> (publish::is_speed(speed) <==> is_part(
            speed,
        )),
{
    match request.animation.speed {
        Some(speed) => {
            match number::decimal_of(speed) {
                Some(d) => {
                    assert(d.exp < 0 ==> 1 * number::pow10((-d.exp) as nat) == number::pow10(
                        (-d.exp) as nat,
                    ));
                },
                None => {},
            }
        },
        None => {},
    }
}

/// A scene can be published exactly where its palette has at most nine colours, its speed, if it
/// has one, lies between nothing and one, it asks for at most three different effects, each for a
/// light of the scene that has reported it, and one of its lights has anything to do.
pub proof fn a_scene_is_published_within_limits(request: SceneRequestView)
    ensures
        publish::publish_problem(request) is None <==> {
            &&& request.animation.palette.len() <= 9
            &&& request.animation.speed matches Some(speed) ==> is_part(speed)
            &&& request.animation.effects.map_values(
                |e: SceneEffectView| e.effect,
            ).to_set().len() <= 3
            &&& forall|k: int|
                0 <= k < request.animation.effects.len() ==> can_be_played(
                    request.members,
                    #[trigger] request.animation.effects[k],
                )
            &&& exists|i: int|
                0 <= i < request.members.len() && is_busy(
                    #[trigger] request.members[i],
                    request.animation.effects,
                )
        },
{
    broadcast use vstd::seq_lib::group_filter_ensures;

    let members = request.members;
    let effects = request.animation.effects;
    distinct_is_as_many(effects);
    effects_are_checked(members, effects, effects.len());
    members_act(members, effects, members.len());
    assert(members.take(members.len() as int) =~= members);
    let busy = |m: SceneMemberView| is_busy(m, effects);
    let kept = members.filter(busy);
    if kept.len() > 0 {
        members.lemma_filter_contains_rev(busy, kept[0]);
        assert(kept.contains(kept[0]));
        assert(busy(kept[0]));
        assert(members.contains(kept[0]));
        let i = members.index_of(kept[0]);
        assert(is_busy(members[i], effects));
    }
    if exists|i: int| 0 <= i < members.len() && is_busy(#[trigger] members[i], effects) {
        let i = choose|i: int| 0 <= i < members.len() && is_busy(#[trigger] members[i], effects);
        assert(busy(members[i]));
        assert(kept.contains(members[i]));
    }
    speed_is_part(request);
}

/// In a scene that can be published, and whose members are different devices, every effect in the
/// action of a member is one that the member's own light has reported.
pub proof fn a_light_plays_what_it_reported(request: SceneRequestView, group: JView, k: int)
    requires
        publish::publish_problem(request) is None,
        forall|i: int, j: int|
            0 <= i < j < request.members.len() ==> (#[trigger] request.members[i]).device != (
            #[trigger] request.members[j]).device,
        0 <= k < request.members.filter(
            |m: SceneMemberView| is_busy(m, request.animation.effects),
        ).len(),
    ensures
        ({
            let busy = request.members.filter(
                |m: SceneMemberView| is_busy(m, request.animation.effects),
            );
            let actions = json::lookup(publish::body_of(request, group), "actions"@)->0->Arr_0;
            match actions[k].get2("action"@, "effects"@) {
                Some(effects) => effects.get("effect"@) is Some && effects.get("effect"@)->0 is Str
                    && has_reported(busy[k], effects.get("effect"@)->0->Str_0),
                None => true,
            }
        }),
{
    broadcast use {json::lookup_put, json::one_is_one, vstd::seq_lib::group_filter_ensures};

    a_published_scene_acts_light_by_light(request, group);
    a_scene_is_published_within_limits(request);
    let members = request.members;
    let effects = request.animation.effects;
    let is = |m: SceneMemberView| is_busy(m, effects);
    let busy = members.filter(is);
    let member = busy[k];
    let actions = json::lookup(publish::body_of(request, group), "actions"@)->0->Arr_0;
    assert(is_action(actions[k], member, effects));
    if actions[k].get2("action"@, "effects"@) is Some {
        request_is_found(effects, effects.len(), member.device);
        let last = choose|i: int| #[trigger] is_last_request(effects, i, member.device);
        assert(is_last_request(effects, last, member.device));
        let requested = effects[last];
        assert(can_be_played(members, requested));
        let i = choose|i: int| #[trigger]
            is_first_of(members, i, requested.device) && has_reported(members[i], requested.effect);
        assert(busy.contains(member));
        members.lemma_filter_contains_rev(is, member);
        assert(members.contains(member));
        let j = members.index_of(member);
        if i < j {
            assert(members[i].device != members[j].device);
        } else if j < i {
            assert(members[j].device != members[i].device);
        }
        let value = JView::Obj(json::one("effect"@, JView::Str(requested.effect)));
        assert(actions[k].get2("action"@, "effects"@) == Some(value));
        assert(value.get("effect"@) == Some(JView::Str(requested.effect)));
    }
}

/// A published scene says its marked name and its mark, and goes to its group. It has a palette, a
/// speed and whether it moves by itself only where it is animated, and then as it was asked for.
pub proof fn a_published_scene_says_what_it_is(request: SceneRequestView, group: JView)
    ensures
        ({
            let body = JView::Obj(publish::body_of(request, group));
            let animation = request.animation;
            &&& body.get2("metadata"@, "name"@) == Some(
                JView::Str(publish::published_name(request.scene, request.name)),
            )
            &&& body.get2("metadata"@, "appdata"@) == Some(
                JView::Str("juno:"@ + text::hex(request.scene as nat, 8)),
            )
            &&& body.get("group"@) == Some(group)
            &&& body.get("palette"@) is Some <==> animation.enabled
            &&& body.get("speed"@) == match animation.speed {
                Some(speed) => if animation.enabled {
                    Some(JView::Num(speed))
                } else {
                    None
                },
                None => None,
            }
            &&& body.get("auto_dynamic"@) == if animation.enabled {
                Some(JView::Bool(animation.auto_dynamic))
            } else {
                None
            }
            &&& forall|key: Seq<char>| #[trigger]
                body.get(key) is Some ==> seq![
                    "metadata"@,
                    "group"@,
                    "actions"@,
                    "palette"@,
                    "speed"@,
                    "auto_dynamic"@,
                ].contains(key)
        }),
{
    broadcast use json::lookup_put;

    body_keys();
    let keys = seq![
        "metadata"@,
        "group"@,
        "actions"@,
        "palette"@,
        "speed"@,
        "auto_dynamic"@,
    ];
    assert(keys[0] == "metadata"@ && keys[1] == "group"@ && keys[2] == "actions"@ && keys[3]
        == "palette"@ && keys[4] == "speed"@ && keys[5] == "auto_dynamic"@);
    let body = JView::Obj(publish::body_of(request, group));
    assert forall|key: Seq<char>| #[trigger] body.get(key) is Some implies keys.contains(key) by {
        if !keys.contains(key) {
            assert(key != keys[0] && key != keys[1] && key != keys[2] && key != keys[3] && key
                != keys[4] && key != keys[5]);
            assert(json::lookup(Members::empty(), key) is None);
        }
    }
    assert(json::lookup(Members::empty(), "palette"@) is None);
    assert(json::lookup(Members::empty(), "speed"@) is None);
    assert(json::lookup(Members::empty(), "auto_dynamic"@) is None);
}

/// Whether a brightness is a number, brought between nothing and a hundred.
pub open spec fn is_percent(shown: NumberView, asked: NumberView) -> bool {
    match number::decimal_of(asked) {
        Some(d) => if d.neg && d.digits > 0 {
            shown == NumberView::Float("0.0"@)
        } else if !d.neg && if d.exp >= 0 {
            d.digits * number::pow10(d.exp as nat) > 100
        } else {
            d.digits > 100 * number::pow10((-d.exp) as nat)
        } {
            shown == NumberView::Float("100.0"@)
        } else {
            shown == asked
        },
        None => shown == asked,
    }
}

/// Whether a colour of a palette is the one asked for: its point, and its brightness where it has
/// one.
pub open spec fn is_color(shown: JView, asked: ScenePaletteColorView) -> bool {
    &&& shown.get3("color"@, "xy"@, "x"@) == Some(JView::Num(asked.x))
    &&& shown.get3("color"@, "xy"@, "y"@) == Some(JView::Num(asked.y))
    &&& match asked.brightness {
        Some(b) => exists|n: NumberView|
            shown.get2("dimming"@, "brightness"@) == Some(JView::Num(n)) && #[trigger] is_percent(
                n,
                b,
            ),
        None => shown.get("dimming"@) is None,
    }
}

proof fn color_is_shown(asked: ScenePaletteColorView)
    ensures
        is_color(publish::palette_color(asked), asked),
{
    broadcast use json::lookup_put;

    body_keys();
    words();
    match asked.brightness {
        Some(b) => {
            assert(is_percent(number::percent(b), b));
        },
        None => {
            assert(json::lookup(Members::empty(), "dimming"@) is None);
        },
    }
}

/// The palette of a published scene has the colours asked for, in their order, and the effects
/// asked for, each once and ascending.
pub proof fn a_palette_has_what_is_asked_for(
    request: SceneRequestView,
    group: JView,
    effect: Seq<char>,
)
    requires
        request.animation.enabled,
    ensures
        ({
            let body = JView::Obj(publish::body_of(request, group));
            let asked = request.animation;
            match (body.get2("palette"@, "color"@), body.get2("palette"@, "effects"@)) {
                (Some(JView::Arr(colors)), Some(JView::Arr(effects))) => {
                    &&& colors.len() == asked.palette.len()
                    &&& forall|k: int|
                        0 <= k < colors.len() ==> is_color(#[trigger] colors[k], asked.palette[k])
                    &&& effects.contains(JView::Obj(seq![("effect"@, JView::Str(effect))]))
                        <==> exists|k: int|
                        0 <= k < asked.effects.len() && (#[trigger] asked.effects[k]).effect
                            == effect
                    &&& exists|names: Seq<Seq<char>>| #[trigger]
                        text::is_ascending(names) && effects == names.map_values(
                            |name: Seq<char>| JView::Obj(seq![("effect"@, JView::Str(name))]),
                        )
                },
                _ => false,
            }
        }),
{
    broadcast use {json::lookup_put, json::one_is_one};

    body_keys();
    let asked = request.animation;
    let body = JView::Obj(publish::body_of(request, group));
    assert(body.get("palette"@) == Some(publish::palette_of(asked)));
    let colors = body.get2("palette"@, "color"@)->0->Arr_0;
    assert forall|k: int| 0 <= k < colors.len() implies is_color(
        #[trigger] colors[k],
        asked.palette[k],
    ) by {
        color_is_shown(asked.palette[k]);
    }
    let names = publish::effect_names(asked.effects);
    text::ascending_keeps_strings(names, names.len());
    assert(names.take(names.len() as int) =~= names);
    let distinct = publish::distinct_effects(asked.effects);
    let shown = |name: Seq<char>| JView::Obj(seq![("effect"@, JView::Str(name))]);
    let effects = body.get2("palette"@, "effects"@)->0->Arr_0;
    assert(effects =~= distinct.map_values(shown));
    assert(text::is_ascending(distinct));
    let value = JView::Obj(seq![("effect"@, JView::Str(effect))]);
    if effects.contains(value) {
        let k = effects.index_of(value);
        assert(effects[k] == shown(distinct[k]));
        assert(seq![("effect"@, JView::Str(effect))][0] == seq![
            ("effect"@, JView::Str(distinct[k])),
        ][0]);
        assert(distinct.contains(effect));
        let j = names.index_of(effect);
        assert(asked.effects[j].effect == effect);
    }
    if exists|k: int| 0 <= k < asked.effects.len() && (#[trigger] asked.effects[k]).effect
        == effect {
        let k = choose|k: int|
            0 <= k < asked.effects.len() && (#[trigger] asked.effects[k]).effect == effect;
        assert(names[k] == effect);
        assert(names.contains(effect));
        assert(distinct.contains(effect));
        let j = distinct.index_of(effect);
        assert(effects[j] == value);
    }
}

} // verus!
