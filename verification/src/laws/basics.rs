//! Laws of what everything else is made of: objects, memory, requests, names and reasons.

use vstd::prelude::*;
use crate::bridge;
use crate::bulb;
use crate::catalog;
use crate::host;
use crate::host::{HostCallView, InstanceView, SceneEffectView, SceneMemberView, SceneRequestView};
use crate::json;
use crate::json::{JView, Members, NumberView};
use crate::laws::command;
use crate::laws::native;
use crate::laws::publish as published;
use crate::laws::report;
use crate::laws::scene as protocol;
use crate::number;
use crate::publish;
use crate::scene;
use crate::setup;
use crate::text;
use crate::wire;

verus! {

/// Whether the member at `k` is the first under a key.
pub open spec fn is_first(members: Members, k: int, key: Seq<char>) -> bool {
    &&& 0 <= k < members.len()
    &&& members[k].0 == key
    &&& forall|j: int| 0 <= j < k ==> (#[trigger] members[j]).0 != key
}

/// A member of an object is found by its key, and nothing is found under a key that is not there.
pub proof fn a_member_is_found_by_its_key(members: Members, k: int, key: Seq<char>)
    ensures
        is_first(members, k, key) ==> json::lookup(members, key) == Some(members[k].1),
        (forall|j: int| 0 <= j < members.len() ==> (#[trigger] members[j]).0 != key)
            ==> json::lookup(members, key) is None,
{
    member_upto(members, k, key, members.len());
}

proof fn member_upto(members: Members, k: int, key: Seq<char>, n: nat)
    requires
        n <= members.len(),
    ensures
        is_first(members, k, key) ==> json::find(members, n, key) == if k < n {
            Some(members[k].1)
        } else {
            None
        },
        (forall|j: int| 0 <= j < members.len() ==> (#[trigger] members[j]).0 != key) ==> json::find(
            members,
            n,
            key,
        ) is None,
    decreases n,
{
    if n > 0 {
        member_upto(members, k, key, (n - 1) as nat);
        if is_first(members, k, key) && n - 1 < k {
            assert(members[n - 1].0 != key);
        }
    }
}

/// A member of a member is found by its keys in turn, and a value that is no object has none.
pub proof fn a_member_is_found_inside(v: JView, a: Seq<char>, b: Seq<char>, c: Seq<char>)
    ensures
        v.get(a) == match v {
            JView::Obj(members) => json::lookup(members, a),
            _ => None,
        },
        v.get2(a, b) == match v.get(a) {
            Some(inner) => inner.get(b),
            None => None,
        },
        v.get3(a, b, c) == match v.get2(a, b) {
            Some(inner) => inner.get(c),
            None => None,
        },
{
}

/// What a device is told to remember it remembers, what it is told to forget it does not, and
/// everything else stays.
pub proof fn a_device_remembers_and_forgets(
    inst: InstanceView,
    key: Seq<char>,
    value: JView,
    other: Seq<char>,
)
    ensures
        host::remember(inst, key, value).properties == inst.properties,
        host::forget(inst, key).properties == inst.properties,
        json::lookup(host::remember(inst, key, value).scratch, other) == if other == key {
            Some(value)
        } else {
            json::lookup(inst.scratch, other)
        },
        json::lookup(host::forget(inst, key).scratch, other) == if other == key {
            None
        } else {
            json::lookup(inst.scratch, other)
        },
{
    broadcast use {json::lookup_put, json::lookup_without};

}

/// A light is written to at its bridge, by its id and with its key, an empty one where it has none;
/// and not where it has no bridge or no id.
pub proof fn a_light_is_written_to_by_its_id(inst: InstanceView, body: JView)
    ensures
        bulb::light_request(inst, body) == if report::is_set(inst, "Bridge address"@)
            && report::is_set(inst, "Light id"@) {
            Some(
                command::write(
                    json::lookup(inst.properties, "Bridge address"@)->0->Str_0,
                    match json::lookup(inst.properties, "Application key"@) {
                        Some(JView::Str(key)) => key,
                        _ => ""@,
                    },
                    json::lookup(inst.properties, "Light id"@)->0->Str_0,
                    body,
                ),
            )
        } else {
            None
        },
{
    let key = json::str_or(host::property(inst, "Application key"@), ""@);
    assert(seq![("hue-application-key"@, key)] =~= Seq::<(Seq<char>, Seq<char>)>::empty().push(
        ("hue-application-key"@, key),
    ));
}

/// The body that brings a light to a level asks for that level, in the time that is given.
pub proof fn a_level_is_asked_for(level: u8, time: Option<u64>)
    ensures
        command::asks_level(JView::Obj(bulb::level_members(level, time)), level as u64, time),
{
    command::body_asks(level, time);
}

/// A level is reported as it is.
pub proof fn a_level_is_reported(level: u64)
    ensures
        bulb::level_changed(level) == command::report("level_changed"@, "level"@, level),
{
    broadcast use json::one_is_one;

}

/// The resources that the updates of a frame bring, one update after the other.
pub open spec fn brought(updates: Seq<JView>) -> Seq<JView> {
    updates.map_values(
        |u: JView|
            match u.get("data"@) {
                Some(JView::Arr(data)) => data,
                _ => seq![],
            },
    ).flatten()
}

/// A device hears a frame as it would hear its resources, one after the other.
pub proof fn a_frame_is_heard_resource_by_resource(inst: InstanceView, updates: Seq<JView>)
    ensures
        bulb::frame_heard(inst, JView::Arr(updates)) == bulb::heard_all(
            inst,
            brought(updates),
            brought(updates).len(),
        ),
{
    frame_upto(inst, updates, updates.len());
    assert(updates.take(updates.len() as int) =~= updates);
}

proof fn frame_upto(inst: InstanceView, updates: Seq<JView>, n: nat)
    requires
        n <= updates.len(),
    ensures
        bulb::heard_frame(inst, updates, n) == bulb::heard_all(
            inst,
            brought(updates.take(n as int)),
            brought(updates.take(n as int)).len(),
        ),
    decreases n,
{
    let inside = |u: JView|
        match u.get("data"@) {
            Some(JView::Arr(data)) => data,
            _ => seq![],
        };
    let all = updates.take(n as int).map_values(inside);
    all.lemma_flatten_and_flatten_alt_are_equivalent();
    if n > 0 {
        frame_upto(inst, updates, (n - 1) as nat);
        let before = updates.take(n - 1).map_values(inside);
        before.lemma_flatten_and_flatten_alt_are_equivalent();
        assert(all.drop_last() =~= before);
        let more = inside(updates[n - 1]);
        assert(all.last() == more);
        heard_on(inst, before.flatten(), more, more.len());
        assert(brought(updates.take(n as int)) =~= before.flatten() + more);
        assert(brought(updates.take(n - 1)) =~= before.flatten());
        assert(catalog::data_or_none(Some(updates[n - 1])) =~= more);
    } else {
        assert(brought(updates.take(0)) =~= seq![]);
    }
}

proof fn heard_same(inst: InstanceView, a: Seq<JView>, b: Seq<JView>, n: nat)
    requires
        n <= a.len(),
        n <= b.len(),
        forall|i: int| 0 <= i < n ==> a[i] == b[i],
    ensures
        bulb::heard_all(inst, a, n) == bulb::heard_all(inst, b, n),
    decreases n,
{
    if n > 0 {
        heard_same(inst, a, b, (n - 1) as nat);
    }
}

proof fn heard_on(inst: InstanceView, a: Seq<JView>, b: Seq<JView>, n: nat)
    requires
        n <= b.len(),
    ensures
        ({
            let (before, calls) = bulb::heard_all(inst, a, a.len());
            let (after, more) = bulb::heard_all(before, b, n);
            bulb::heard_all(inst, a + b, a.len() + n) == (after, calls + more)
        }),
    decreases n,
{
    let (before, calls) = bulb::heard_all(inst, a, a.len());
    if n == 0 {
        heard_same(inst, a + b, a, a.len());
        assert(calls + Seq::<HostCallView>::empty() =~= calls);
    } else {
        heard_on(inst, a, b, (n - 1) as nat);
        let (some, less) = bulb::heard_all(before, b, (n - 1) as nat);
        assert((a + b)[a.len() + n - 1] == b[n - 1]);
        let (_, last) = bulb::heard(some, b[n - 1]);
        assert((calls + less) + last =~= calls + (less + last));
    }
}

/// Resources are heard one after the other: each by what the device remembers after those before
/// it, and what is reported in their order.
pub proof fn resources_are_heard_in_turn(inst: InstanceView, resources: Seq<JView>, next: JView)
    ensures
        ({
            let (before, calls) = bulb::heard_all(inst, resources, resources.len());
            let (after, more) = bulb::heard(before, next);
            bulb::heard_all(inst, resources.push(next), resources.len() + 1) == (
                after,
                calls + more,
            )
        }),
        bulb::heard_all(inst, resources, 0) == (inst, Seq::<HostCallView>::empty()),
{
    heard_same(inst, resources.push(next), resources, resources.len());
}

/// An answer is heard by the resources in it, and a line of the stream by the frame it spells; one
/// that is none changes nothing.
pub proof fn answers_and_lines_are_heard(inst: InstanceView, args: Members)
    ensures
        ({
            let data = match json::lookup(args, "body"@) {
                Some(body) => match body.get("data"@) {
                    Some(JView::Arr(data)) => data,
                    _ => seq![],
                },
                None => seq![],
            };
            bulb::answer_heard(inst, args) == bulb::heard_all(inst, data, data.len())
        }),
        match json::lookup(args, "data"@) {
            Some(JView::Str(line)) => match wire::parsed(line) {
                Some(JView::Arr(updates)) => bulb::stream_heard(inst, args) == bulb::heard_all(
                    inst,
                    brought(updates),
                    brought(updates).len(),
                ),
                _ => bulb::stream_heard(inst, args) == (inst, Seq::<HostCallView>::empty()),
            },
            _ => bulb::stream_heard(inst, args) == (inst, Seq::<HostCallView>::empty()),
        },
{
    match json::lookup(args, "data"@) {
        Some(JView::Str(line)) => {
            match wire::parsed(line) {
                Some(JView::Arr(updates)) => {
                    a_frame_is_heard_resource_by_resource(inst, updates);
                },
                _ => {},
            }
        },
        _ => {},
    }
}

/// The name of a published scene is as much of its own name as fits, a space, and its marker.
pub proof fn a_published_name_is_the_name_and_the_marker(scene: u32, name: Seq<char>)
    ensures
        ({
            let marker = "[Juno "@ + text::hex(scene as nat, 8) + "]"@;
            &&& publish::token_of(scene) == marker
            &&& publish::appdata_of(scene) == "juno:"@ + text::hex(scene as nat, 8)
            &&& publish::published_name(scene, name) == name.take(
                if name.len() < 16 {
                    name.len() as int
                } else {
                    16
                },
            ) + " "@ + marker
        }),
{
    protocol::a_published_name_fits(scene, name);
    assert(name.take(name.len() as int) =~= name);
}

/// Whether the member at `k` is the first of a scene that is no light.
pub open spec fn is_first_wrong(members: Seq<SceneMemberView>, k: int) -> bool {
    &&& 0 <= k < members.len()
    &&& !report::is_set(members[k].instance, "Light id"@)
    &&& forall|j: int|
        0 <= j < k ==> report::is_set((#[trigger] members[j]).instance, "Light id"@)
}

proof fn wrong_is_told(members: Seq<SceneMemberView>, k: int, n: nat)
    requires
        is_first_wrong(members, k),
        n <= members.len(),
    ensures
        n <= k ==> publish::light_ids(members, n) is Ok,
        n > k ==> publish::light_ids(members, n) == Err::<Seq<Seq<char>>, Seq<char>>(
            if json::lookup(members[k].instance.properties, "Light id"@) matches Some(
                JView::Str(_),
            ) {
                "device "@ + text::decimal(members[k].device as nat) + " has no Hue light id"@
            } else {
                "device "@ + text::decimal(members[k].device as nat) + " is not a Hue light"@
            },
        ),
    decreases n,
{
    if n > 0 {
        wrong_is_told(members, k, (n - 1) as nat);
        if n - 1 < k {
            assert(report::is_set(members[n - 1].instance, "Light id"@));
        }
    }
}

/// A scene with a member that is no light is refused for the first such member, by its number and
/// by whether it has no light id or an empty one; one with a light twice, or with none, for that.
pub proof fn a_wrong_member_is_told(request: SceneRequestView, k: int)
    ensures
        is_first_wrong(request.members, k) ==> publish::member_lights(request) == Err::<
            Seq<Seq<char>>,
            Seq<char>,
        >(
            if json::lookup(request.members[k].instance.properties, "Light id"@) matches Some(
                JView::Str(_),
            ) {
                "device "@ + text::decimal(request.members[k].device as nat)
                    + " has no Hue light id"@
            } else {
                "device "@ + text::decimal(request.members[k].device as nat)
                    + " is not a Hue light"@
            },
        ),
        request.members.len() == 0 ==> publish::member_lights(request) == Err::<
            Seq<Seq<char>>,
            Seq<char>,
        >("the scene has no Hue lights"@),
        protocol::are_lights(request.members) && !protocol::lights_of(
            request.members,
        ).no_duplicates() ==> publish::member_lights(request) == Err::<Seq<Seq<char>>, Seq<char>>(
            "the scene contains the same Hue light more than once"@,
        ),
{
    let members = request.members;
    if is_first_wrong(members, k) {
        wrong_is_told(members, k, members.len());
    }
    protocol::ids_upto(members, members.len());
    assert(members.take(members.len() as int) =~= members);
}

/// Whether the effect at `k` is the first that cannot be played.
pub open spec fn is_first_unplayable(request: SceneRequestView, k: int) -> bool {
    let effects = request.animation.effects;
    &&& 0 <= k < effects.len()
    &&& !published::can_be_played(request.members, effects[k])
    &&& forall|j: int|
        0 <= j < k ==> published::can_be_played(request.members, #[trigger] effects[j])
}

/// Why an effect cannot be played: no member is its device, or the light did not report it.
pub open spec fn why_unplayable(members: Seq<SceneMemberView>, e: SceneEffectView) -> Seq<char> {
    if forall|j: int| 0 <= j < members.len() ==> (#[trigger] members[j]).device != e.device {
        "effect `"@ + e.effect + "` targets a light outside this scene"@
    } else {
        "device "@ + text::decimal(e.device as nat) + " did not report `"@ + e.effect
            + "` in effects_v2.status.effect_values"@
    }
}

proof fn unplayable_is_told(
    members: Seq<SceneMemberView>,
    effects: Seq<SceneEffectView>,
    k: int,
    n: nat,
)
    requires
        0 <= k < effects.len(),
        n <= effects.len(),
        !published::can_be_played(members, effects[k]),
        forall|j: int| 0 <= j < k ==> published::can_be_played(members, #[trigger] effects[j]),
    ensures
        publish::effects_problem(members, effects, n) == if k < n {
            Some(why_unplayable(members, effects[k]))
        } else {
            None
        },
    decreases n,
{
    if n > 0 {
        unplayable_is_told(members, effects, k, (n - 1) as nat);
        published::effect_is_checked(members, effects[n - 1]);
        published::member_is_first(members, members.len(), effects[n - 1].device);
        if n - 1 < k {
            assert(published::can_be_played(members, effects[n - 1]));
        }
    }
}

/// A scene that cannot be published is told the first thing wrong with it: too many colours, a
/// speed that is none, too many effects, the first effect that cannot be played, or that no light
/// has anything to do.
pub proof fn what_is_wrong_is_told(request: SceneRequestView, k: int)
    ensures
        ({
            let animation = request.animation;
            let names = animation.effects.map_values(|e: SceneEffectView| e.effect);
            let problem = publish::publish_problem(request);
            if animation.palette.len() > 9 {
                problem == Some("Hue dynamic palettes support at most 9 colors"@)
            } else if animation.speed is Some && !published::is_part(animation.speed->0) {
                problem == Some("Hue scene speed must be between 0 and 1"@)
            } else if names.to_set().len() > 3 {
                problem == Some("Hue scene palettes support at most 3 effects"@)
            } else if is_first_unplayable(request, k) {
                problem == Some(why_unplayable(request.members, animation.effects[k]))
            } else {
                (forall|j: int|
                    0 <= j < animation.effects.len() ==> published::can_be_played(
                        request.members,
                        #[trigger] animation.effects[j],
                    )) ==> problem == if exists|i: int|
                    0 <= i < request.members.len() && published::is_busy(
                        #[trigger] request.members[i],
                        animation.effects,
                    ) {
                    None
                } else {
                    Some("the scene has no Hue-compatible light actions"@)
                }
            }
        }),
{
    let animation = request.animation;
    published::distinct_is_as_many(animation.effects);
    published::a_scene_is_published_within_limits(request);
    published::speed_is_part(request);
    published::effects_are_checked(request.members, animation.effects, animation.effects.len());
    if is_first_unplayable(request, k) {
        unplayable_is_told(request.members, animation.effects, k, animation.effects.len());
    }
}

/// What a light says it can play is remembered as it says it.
pub proof fn what_a_light_can_play_is_remembered(
    member: SceneMemberView,
    before: InstanceView,
    light: JView,
    values: Seq<JView>,
    effect: Seq<char>,
)
    requires
        light.get3("effects_v2"@, "status"@, "effect_values"@) == Some(JView::Arr(values)),
        publish::effect_values(light) matches Some(read) && member.instance == host::remember(
            before,
            "hue_effects_v2"@,
            json::string_array(json::strings(read)),
        ),
    ensures
        publish::effects_of(member).contains(effect) <==> values.contains(JView::Str(effect)),
{
    protocol::cached_effects_can_be_played(member, before, light, values, effect);
    published::texts_are_those_there(values, values.len(), effect);
    assert(values.take(values.len() as int) =~= values);
}

/// A reference names what it refers to by its id and its kind, and nothing else.
pub proof fn a_reference_names_id_and_kind(id: Seq<char>, kind: Seq<char>)
    ensures
        bridge::reference(id, kind) == JView::Obj(
            seq![("rid"@, JView::Str(id)), ("rtype"@, JView::Str(kind))],
        ),
{
    broadcast use json::one_is_one;

    reveal_strlit("rid");
    reveal_strlit("rtype");
    assert("rid"@[0] == 'r' && "rid"@[1] == 'i' && "rtype"@[0] == 'r' && "rtype"@[1] == 't');
    let one = seq![("rid"@, JView::Str(id))];
    assert(json::keys(one) =~= seq!["rid"@]);
    assert(text::less_from("rid"@, "rtype"@, 1));
    assert(text::less_from("rid"@, "rtype"@, 0));
    assert(text::rank_from(json::keys(one), "rtype"@, 1) == 1);
    assert(text::rank(json::keys(one), "rtype"@) == 1);
    assert(json::put(one, "rtype"@, JView::Str(kind)) =~= seq![
        ("rid"@, JView::Str(id)),
        ("rtype"@, JView::Str(kind)),
    ]);
}

/// A link is kept under the number of its scene, and the identity of a bridge is the text that it
/// remembers as such.
pub proof fn a_link_is_kept_under_its_number(
    inst: InstanceView,
    scene: u32,
    link: JView,
    other: u32,
)
    ensures
        native::link(inst, scene) == scene::link_of(inst, scene),
        native::link(scene::linked(inst, scene, link), other) == if other == scene {
            Some(link)
        } else {
            native::link(inst, other)
        },
        native::link(scene::unlinked(inst, scene), other) == if other == scene {
            None
        } else {
            native::link(inst, other)
        },
        bridge::identity(inst) == native::as_text(json::lookup(inst.scratch, "hue_bridge_id"@)),
{
    protocol::a_link_is_found(inst, scene, link, other);
    protocol::a_removed_link_is_gone(inst, scene, other);
}

/// A scene is written over where it is on the bridge, and is new otherwise.
pub proof fn a_write_goes_to_the_scene(existing: Option<Seq<char>>)
    ensures
        scene::write_for(existing) == match existing {
            Some(id) => ("PUT"@, "/clip/v2/resource/scene/"@ + id, "scene_update"@),
            None => ("POST"@, "/clip/v2/resource/scene"@, "scene_create"@),
        },
{
}

/// A member of an object is set, an object is made of nothing, and any other value stays.
pub proof fn a_member_is_set(v: JView, key: Seq<char>, value: JView, other: Seq<char>)
    ensures
        v is Obj || v is Null ==> catalog::set_member(v, key, value).get(other) == if other == key {
            Some(value)
        } else {
            v.get(other)
        },
        !(v is Obj) && !(v is Null) ==> catalog::set_member(v, key, value) == v,
{
    broadcast use json::lookup_put;

    assert(json::lookup(Members::empty(), other) is None);
    json::lookup_put(seq![], key, value, other);
}

/// The end of a word is that of one where there is one, and that of many otherwise.
pub proof fn one_is_not_many(n: nat)
    ensures
        setup::plural_of(n) == if n == 1 {
            "y"@
        } else {
            "ies"@
        },
        setup::ending(n) == if n == 1 {
            ""@
        } else {
            "s"@
        },
{
}

/// A number as a fraction is written is itself where it is written so already and can be read, and
/// a whole number otherwise is spelled as a fraction is, with its sign.
pub proof fn a_number_is_spelled_as_a_fraction(t: Seq<char>, n: u64, i: i64)
    requires
        i64::MIN < i < 0,
    ensures
        number::reading(t) is Some ==> number::floated(NumberView::Float(t)) == Some(
            NumberView::Float(t),
        ),
        number::reading(t) is None ==> number::floated(NumberView::Float(t)) is None,
        number::floated(NumberView::PosInt(n)) == Some(
            NumberView::Float(wire::float_spelling(n)),
        ),
        number::floated(NumberView::NegInt(i)) == Some(
            NumberView::Float("-"@ + wire::float_spelling((-i) as u64)),
        ),
{
}

/// A whole number is read as it is, and so is its sign.
pub proof fn a_whole_number_is_itself(n: u64, i: i64)
    requires
        i64::MIN < i < 0,
    ensures
        number::decimal_of(NumberView::PosInt(n)) == Some(
            number::Decimal { neg: false, digits: n, exp: 0 },
        ),
        number::decimal_of(NumberView::NegInt(i)) == Some(
            number::Decimal { neg: true, digits: (-i) as u64, exp: 0 },
        ),
{
}

/// Of two maps of names, the first wins and the second fills in; and a map that is not there, or is
/// no map, has no names.
pub proof fn names_are_filled_in(first: Option<JView>, second: Members, id: Seq<char>)
    ensures
        json::lookup(
            catalog::merged(catalog::members_or_none(first), second, second.len()),
            id,
        ) == match first {
            Some(JView::Obj(names)) => match json::lookup(names, id) {
                Some(name) => Some(name),
                None => json::lookup(second, id),
            },
            _ => json::lookup(second, id),
        },
{
    crate::laws::catalog::the_first_name_wins(catalog::members_or_none(first), second, id);
    assert(json::lookup(Members::empty(), id) is None);
}

} // verus!
