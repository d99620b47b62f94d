//! Laws of scenes: which are only borrowed, which may be written, and how a write ends.

use vstd::prelude::*;
use crate::borrowed;
use crate::bridge;
use crate::follow;
use crate::host;
use crate::host::{
    GroupDisposition, HostCallView, InstanceView, SceneMemberView, SceneOperation, SceneOwnership,
    SceneRecall, SceneRequestView,
};
use crate::json;
use crate::json::{JView, Members};
use crate::publish;
use crate::role;
use crate::role::Role;
use crate::scene;
use crate::text;

verus! {

/// Whether a call recalls the scene on the bridge that a request names.
pub open spec fn is_recall(inst: InstanceView, request: SceneRequestView, call: HostCallView) -> bool {
    match (request.operation, request.resource) {
        (SceneOperation::Recall { mode }, Some(resource)) => bridge::bridge_call(
            inst,
            "PUT"@,
            "/clip/v2/resource/scene/"@ + resource,
            Some(scene::recall_body(mode)),
        ) == Some(call),
        _ => false,
    }
}

/// A borrowed scene is never written: whatever is asked of it, the bridge remembers what it did
/// before, and the only request there can be is a recall. Publishing and detaching are refused.
pub proof fn borrowed_scenes_are_never_written(inst: InstanceView, request: SceneRequestView)
    requires
        request.ownership == SceneOwnership::Borrowed,
    ensures
        ({
            let (after, response) = scene::handled(inst, request);
            &&& after == inst
            &&& request.operation == SceneOperation::Synchronize || request.operation
                == SceneOperation::Detach ==> response.disposition == GroupDisposition::Refused
                && response.calls.len() == 0
            &&& response.calls.len() <= 1
            &&& response.calls.len() > 0 ==> is_recall(inst, request, response.calls[0])
        }),
{
}

/// A request that is refused says why, asks nothing of the bridge and changes nothing.
pub proof fn a_refusal_changes_nothing(inst: InstanceView, request: SceneRequestView)
    requires
        scene::handled(inst, request).1.disposition == GroupDisposition::Refused,
    ensures
        scene::handled(inst, request).0 == inst,
        scene::handled(inst, request).1.calls.len() == 0,
        scene::handled(inst, request).1.problem is Some,
{
}

/// A request about a scene is at most one request to the bridge, and a recall changes nothing of
/// what is remembered.
pub proof fn a_scene_is_one_request(inst: InstanceView, request: SceneRequestView)
    ensures
        scene::handled(inst, request).1.calls.len() <= 1,
        request.operation is Recall || request.operation is Status ==> scene::handled(
            inst,
            request,
        ).0 == inst,
{
}

/// Only the bridge handles scenes.
pub proof fn only_the_bridge_has_scenes(inst: InstanceView, request: SceneRequestView)
    requires
        role::role_of(inst) != Role::Bridge,
    ensures
        scene::handled(inst, request).0 == inst,
        scene::handled(inst, request).1.disposition == GroupDisposition::Refused,
        scene::handled(inst, request).1.calls.len() == 0,
{
}

/// While one write is in progress another is refused.
pub proof fn one_write_at_a_time(inst: InstanceView, request: SceneRequestView)
    requires
        follow::pending(inst) is Some,
        request.operation == SceneOperation::Synchronize,
    ensures
        scene::handled(inst, request).0 == inst,
        scene::handled(inst, request).1.disposition == GroupDisposition::Refused,
{
}

proof fn a_problem_stays(request: SceneRequestView, n: nat, k: int)
    requires
        0 <= k < n <= request.animation.effects.len(),
        publish::effect_problem(request.members, request.animation.effects[k]) is Some,
    ensures
        publish::effects_problem(request.members, request.animation.effects, n) is Some,
    decreases n,
{
    if k < n - 1 {
        a_problem_stays(request, (n - 1) as nat, k);
    }
}

/// A scene with an effect that its light did not report is refused before anything is sent.
pub proof fn an_unknown_effect_is_never_sent(
    inst: InstanceView,
    request: SceneRequestView,
    k: int,
)
    requires
        request.operation == SceneOperation::Synchronize,
        0 <= k < request.animation.effects.len(),
        publish::effect_problem(request.members, request.animation.effects[k]) is Some,
    ensures
        scene::handled(inst, request).0 == inst,
        scene::handled(inst, request).1.disposition == GroupDisposition::Refused,
        scene::handled(inst, request).1.calls.len() == 0,
{
    a_problem_stays(request, request.animation.effects.len(), k);
}

/// A scene that was linked has that link, and every other scene has the one it had.
pub proof fn a_link_is_found(inst: InstanceView, scene: u32, link: JView, other: u32)
    ensures
        scene::link_of(scene::linked(inst, scene, link), other) == if other == scene {
            Some(link)
        } else {
            scene::link_of(inst, other)
        },
{
    broadcast use json::lookup_put;

    text::decimal_injective(scene as nat, other as nat);
}

/// A scene that was unlinked has no link, and every other scene has the one it had.
pub proof fn a_removed_link_is_gone(inst: InstanceView, scene: u32, other: u32)
    ensures
        scene::link_of(scene::unlinked(inst, scene), other) == if other == scene {
            None
        } else {
            scene::link_of(inst, other)
        },
{
    broadcast use {json::lookup_put, json::lookup_without};

    text::decimal_injective(scene as nat, other as nat);
}

/// Detaching a scene unlinks it and touches no other, and asks nothing of the bridge.
pub proof fn detaching_unlinks(inst: InstanceView, request: SceneRequestView, other: u32)
    requires
        role::role_of(inst) == Role::Bridge,
        request.operation == SceneOperation::Detach,
        request.ownership == SceneOwnership::Juno,
    ensures
        scene::handled(inst, request).1.calls.len() == 0,
        scene::link_of(scene::handled(inst, request).0, other) == if other == request.scene {
            None
        } else {
            scene::link_of(inst, other)
        },
{
    broadcast use json::lookup_without;

    a_removed_link_is_gone(inst, request.scene, other);
    follow::keys_differ();
}

proof fn hex_length(n: nat, width: nat)
    ensures
        text::hex(n, width).len() == width,
    decreases width,
{
    if width > 0 {
        hex_length(n / 16, (width - 1) as nat);
    }
}

/// The name of a published scene fits in 32 characters and ends with its marker, whatever name the
/// scene has.
pub proof fn a_published_name_fits(scene: u32, name: Seq<char>)
    ensures
        publish::published_name(scene, name).len() <= 32,
        text::ends(publish::published_name(scene, name), publish::token_of(scene)),
        text::holds(publish::published_name(scene, name), publish::token_of(scene)),
        publish::token_of(scene).len() == 15,
        publish::appdata_of(scene).len() == 13,
{
    hex_length(scene as nat, 8);
    reveal_strlit("[Juno ");
    reveal_strlit("]");
    reveal_strlit(" ");
    reveal_strlit("juno:");
    let token = publish::token_of(scene);
    let full = publish::published_name(scene, name);
    let i = full.len() - token.len();
    assert(full.subrange(i, full.len() as int) =~= token);
    assert(text::stands_at(full, token, i));
}

proof fn hex_digits_differ(a: nat, b: nat)
    requires
        a < 16,
        b < 16,
        text::hex_digit(a) == text::hex_digit(b),
    ensures
        a == b,
{
}

proof fn hex_injective(a: nat, b: nat, width: nat, limit: nat)
    requires
        text::hex(a, width) == text::hex(b, width),
        limit == vstd::arithmetic::power::pow(16, width),
        a < limit,
        b < limit,
    ensures
        a == b,
    decreases width,
{
    vstd::arithmetic::power::lemma_pow0(16);
    if width > 0 {
        let less = vstd::arithmetic::power::pow(16, (width - 1) as nat);
        vstd::arithmetic::power::lemma_pow_positive(16, (width - 1) as nat);
        reveal(vstd::arithmetic::power::pow);
        assert(limit == 16 * less);
        let (x, y) = (text::hex(a, width), text::hex(b, width));
        assert(x.drop_last() =~= text::hex(a / 16, (width - 1) as nat));
        assert(y.drop_last() =~= text::hex(b / 16, (width - 1) as nat));
        assert(x.last() == y.last());
        hex_digits_differ(a % 16, b % 16);
        hex_injective(a / 16, b / 16, (width - 1) as nat, less as nat);
    }
}

/// Different scenes have different markers.
pub proof fn markers_tell_scenes_apart(a: u32, b: u32)
    ensures
        publish::token_of(a) == publish::token_of(b) ==> a == b,
        publish::appdata_of(a) == publish::appdata_of(b) ==> a == b,
{
    let (x, y) = (text::hex(a as nat, 8), text::hex(b as nat, 8));
    hex_length(a as nat, 8);
    hex_length(b as nat, 8);
    let front = "[Juno "@;
    let mark = "juno:"@;
    if publish::token_of(a) == publish::token_of(b) {
        let t = publish::token_of(a);
        assert(t.subrange(front.len() as int, (front.len() + 8) as int) =~= x);
        assert(t.subrange(front.len() as int, (front.len() + 8) as int) =~= y);
    }
    if publish::appdata_of(a) == publish::appdata_of(b) {
        let t = publish::appdata_of(a);
        assert(t.subrange(mark.len() as int, t.len() as int) =~= x);
        assert(t.subrange(mark.len() as int, t.len() as int) =~= y);
    }
    if x == y {
        assert(vstd::arithmetic::power::pow(16, 8) == 0x1_0000_0000) by {
            reveal_with_fuel(vstd::arithmetic::power::pow, 9);
        }
        hex_injective(a as nat, b as nat, 8, 0x1_0000_0000);
    }
}

/// A scene that carries the marker of a published one is never offered as a borrowed one.
pub proof fn published_scenes_are_not_borrowed(native: JView, scene: u32)
    requires
        json::as_str(native.get2("metadata"@, "appdata"@)) == Some(publish::appdata_of(scene)),
    ensures
        borrowed::is_ours(native),
        borrowed::snapshot(native) is None,
{
    let appdata = publish::appdata_of(scene);
    assert(appdata.subrange(0, "juno:"@.len() as int) =~= "juno:"@);
}

/// Everything that is offered as a borrowed scene is a scene on the bridge that was not published
/// from here.
pub proof fn only_borrowed_scenes_are_offered(scenes: Seq<JView>, n: nat, k: int)
    requires
        n <= scenes.len(),
        0 <= k < borrowed::snapshots(scenes, n).len(),
    ensures
        exists|i: int|
            0 <= i < n && !borrowed::is_ours(#[trigger] scenes[i]) && borrowed::snapshot(scenes[i])
                == Some(borrowed::snapshots(scenes, n)[k]),
    decreases n,
{
    let rest = borrowed::snapshots(scenes, (n - 1) as nat);
    let s = borrowed::snapshots(scenes, n)[k];
    if k < rest.len() {
        only_borrowed_scenes_are_offered(scenes, (n - 1) as nat, k);
        let i = choose|i: int|
            0 <= i < n - 1 && !borrowed::is_ours(#[trigger] scenes[i]) && borrowed::snapshot(
                scenes[i],
            ) == Some(rest[k]);
        assert(!borrowed::is_ours(scenes[i]) && borrowed::snapshot(scenes[i]) == Some(s));
    } else {
        assert(!borrowed::is_ours(scenes[n - 1]) && borrowed::snapshot(scenes[n - 1]) == Some(s));
    }
}

/// Whether the write in progress, if any, is one that was begun here for some scene: its record
/// names the scene, the bridge and the markers, and can take a group.
pub open spec fn writes(inst: InstanceView, scene: u32) -> bool {
    follow::pending(inst) matches Some(JView::Obj(record)) && {
        &&& json::lookup(record, "scene"@) == Some(json::int_value(scene as u64))
        &&& bridge::identity(inst) matches Some(id) && json::lookup(record, "bridge_id"@) == Some(
            JView::Str(id),
        )
        &&& json::lookup(record, "token"@) == Some(JView::Str(publish::token_of(scene)))
        &&& json::lookup(record, "appdata"@) == Some(JView::Str(publish::appdata_of(scene)))
        &&& follow::takes_group(record)
    }
}

pub(crate) proof fn record_keys()
    ensures
        "scene"@[0] == 's',
        "bridge_id"@[0] == 'b' && "bridge_id"@.len() == 9,
        "body"@[0] == 'b' && "body"@.len() == 4,
        "token"@[0] == 't',
        "appdata"@[0] == 'a',
        "kind"@[0] == 'k',
        "light_ids"@[0] == 'l',
        "name"@[0] == 'n',
        "group"@[0] == 'g',
        "resource"@[0] == 'r',
        "existing"@[0] == 'e',
        "zone"@[0] == 'z',
        "ownership"@[0] == 'o',
{
    reveal_strlit("scene");
    reveal_strlit("bridge_id");
    reveal_strlit("body");
    reveal_strlit("token");
    reveal_strlit("appdata");
    reveal_strlit("kind");
    reveal_strlit("light_ids");
    reveal_strlit("name");
    reveal_strlit("group");
    reveal_strlit("resource");
    reveal_strlit("existing");
    reveal_strlit("zone");
    reveal_strlit("ownership");
}

pub(crate) proof fn memory_keys()
    ensures
        bridge::HUE_BRIDGE_ID@ != scene::HUE_SCENE_PENDING@,
        bridge::HUE_BRIDGE_ID@ != scene::HUE_SCENE_PROBLEM@,
        bridge::HUE_BRIDGE_ID@ != scene::HUE_SCENE_LINKS@,
        bridge::HUE_BRIDGE_ID@ != scene::HUE_SCENES@,
        bridge::HUE_BRIDGE_ID@ != bridge::HUE_ZONES@,
        bridge::HUE_BRIDGE_ID@ != publish::HUE_LIGHTS@,
        bridge::HUE_BRIDGE_ID@ != publish::HUE_ROOMS@,
        scene::HUE_SCENE_PENDING@ != publish::HUE_LIGHTS@,
        scene::HUE_SCENE_PENDING@ != publish::HUE_ROOMS@,
        scene::HUE_SCENE_LINKS@ != publish::HUE_LIGHTS@,
        scene::HUE_SCENE_LINKS@ != publish::HUE_ROOMS@,
        scene::HUE_SCENES@ != scene::HUE_SCENE_PROBLEM@,
        scene::HUE_SCENE_PENDING@ != bridge::HUE_ZONES@,
        scene::HUE_SCENE_PENDING@ != scene::HUE_SCENES@,
        scene::HUE_SCENE_PENDING@ != scene::HUE_SCENE_LINKS@,
        scene::HUE_SCENE_PENDING@ != scene::HUE_SCENE_PROBLEM@,
        scene::HUE_SCENE_LINKS@ != bridge::HUE_ZONES@,
        scene::HUE_SCENE_LINKS@ != scene::HUE_SCENES@,
        scene::HUE_SCENE_LINKS@ != scene::HUE_SCENE_PROBLEM@,
{
    follow::keys_differ();
    reveal_strlit("hue_bridge_id");
    reveal_strlit("hue_scene_pending");
    reveal_strlit("hue_scene_problem");
    reveal_strlit("hue_scene_links");
    reveal_strlit("hue_scenes");
    reveal_strlit("hue_zones");
    reveal_strlit("hue_lights");
    reveal_strlit("hue_rooms");
    assert(bridge::HUE_BRIDGE_ID@.len() == 13);
    assert(scene::HUE_SCENE_PENDING@.len() == 17);
    assert(scene::HUE_SCENE_PROBLEM@.len() == 17);
    assert(scene::HUE_SCENE_LINKS@.len() == 15);
    assert(scene::HUE_SCENES@.len() == 10);
    assert(bridge::HUE_ZONES@.len() == 9);
    assert(publish::HUE_LIGHTS@.len() == 10);
    assert(publish::HUE_ROOMS@.len() == 9);
}

/// A write that is queued is remembered, with the scene and the markers it is for.
pub proof fn a_queued_write_is_remembered(inst: InstanceView, request: SceneRequestView)
    requires
        scene::handled(inst, request).1.disposition == GroupDisposition::Queued,
    ensures
        writes(scene::handled(inst, request).0, request.scene),
        scene::handled(inst, request).1.calls.len() == 1,
{
    broadcast use json::lookup_put;

    record_keys();
    memory_keys();
}

/// A write in progress can always be followed: whatever the bridge answers about its zone, the
/// answer can be taken in.
pub proof fn a_write_can_be_followed(inst: InstanceView, scene: u32, args: Members)
    requires
        writes(inst, scene) || follow::pending(inst) is None,
    ensures
        follow::can_answer(inst, args),
{
    broadcast use json::lookup_put;

    memory_keys();
}

/// An answer about a zone keeps the write in progress the one it is, or ends it.
pub proof fn a_zone_answer_keeps_the_write(inst: InstanceView, scene: u32, args: Members)
    requires
        writes(inst, scene),
    ensures
        ({
            let after = follow::zone_answered(inst, args).0;
            follow::pending(after) is None || writes(after, scene)
        }),
{
    broadcast use {json::lookup_put, json::lookup_without};

    record_keys();
    memory_keys();
}

/// An answer about a collection keeps the write in progress the one it is, or ends it.
pub proof fn a_collection_answer_keeps_the_write(inst: InstanceView, scene: u32, args: Members)
    requires
        writes(inst, scene),
    ensures
        ({
            let after = follow::collection_answered(inst, args).0;
            follow::pending(after) is None || writes(after, scene)
        }),
{
    broadcast use {json::lookup_put, json::lookup_without};

    record_keys();
    memory_keys();
}

/// Where no write is in progress, no answer begins one.
pub proof fn answers_begin_no_write(inst: InstanceView, args: Members)
    requires
        follow::pending(inst) is None,
    ensures
        follow::pending(follow::zone_answered(inst, args).0) is None,
        follow::pending(follow::collection_answered(inst, args).0) is None,
{
    broadcast use {json::lookup_put, json::lookup_without};

    memory_keys();
}

pub(crate) proof fn methods_differ()
    ensures
        text::same_letters("GET"@, "GET"@),
        !text::same_letters("GET"@, "POST"@),
        !text::same_letters("GET"@, "PUT"@),
        text::same_letters("POST"@, "POST"@),
        !text::same_letters("POST"@, "GET"@),
{
    reveal_strlit("GET");
    reveal_strlit("POST");
    reveal_strlit("PUT");
    assert("GET"@[0] == 'G' && "PUT"@[0] == 'P');
    assert("GET"@.len() == 3 && "POST"@.len() == 4 && "PUT"@.len() == 3);
    assert(text::lower("GET"@[0]) != text::lower("PUT"@[0]));
}

/// Whether an answer lists the scenes on the bridge.
pub open spec fn lists_scenes(args: Members, data: Seq<JView>) -> bool {
    &&& follow::method_of(args) == "GET"@
    &&& follow::status_code(args) < 400
    &&& text::holds(follow::url_of(args), "/clip/v2/resource/scene"@)
    &&& !text::ends(follow::url_of(args), "/clip/v2/resource/light"@)
    &&& !text::ends(follow::url_of(args), "/clip/v2/resource/room"@)
    &&& follow::answer_data(args) == Some(data)
}

/// Whether an answer says that a scene was created.
pub open spec fn creates_scene(args: Members, id: Seq<char>) -> bool {
    &&& follow::method_of(args) == "POST"@
    &&& follow::status_code(args) < 400
    &&& text::holds(follow::url_of(args), "/clip/v2/resource/scene"@)
    &&& follow::created_id(args, "scene"@) == Some(id)
}

/// Whether the write in progress has reached a scene of the bridge.
pub open spec fn has_reached(inst: InstanceView, id: Seq<char>) -> bool {
    follow::pending(inst) matches Some(JView::Obj(record)) && json::lookup(record, "resource"@)
        == Some(JView::Str(id))
}

proof fn link_fields(record: JView, id: Seq<char>, native: JView)
    ensures
        ({
            let link = follow::finished_link(record, id, native);
            &&& link.get("ownership"@) == Some(JView::Str("juno"@))
            &&& link.get("bridge_id"@) == Some(json::or_null(record.get("bridge_id"@)))
            &&& link.get("scene"@) == Some(JView::Str(id))
            &&& link.get("token"@) == Some(JView::Str(scene::text_in(record, "token"@)))
            &&& link.get("appdata"@) == Some(JView::Str(scene::text_in(record, "appdata"@)))
        }),
{
    broadcast use json::lookup_put;

    record_keys();
}

/// A write ends in a link once the bridge lists the scene it reached with both of its markers: the
/// scene then belongs here, under the id that the bridge gave it, and nothing is in progress.
pub proof fn a_verified_write_is_linked(
    inst: InstanceView,
    number: u32,
    args: Members,
    data: Seq<JView>,
    id: Seq<char>,
    native: JView,
)
    requires
        writes(inst, number),
        has_reached(inst, id),
        lists_scenes(args, data),
        bridge::named(data, data.len(), id) == Some(native),
        scene::carries(native, publish::token_of(number), publish::appdata_of(number)),
    ensures
        ({
            let after = follow::collection_answered(inst, args).0;
            &&& follow::pending(after) is None
            &&& host::remembered(after, scene::HUE_SCENE_PROBLEM@) is None
            &&& scene::owned_link(after, number) matches Ok(link) && link.get("scene"@) == Some(
                JView::Str(id),
            )
            &&& after.properties == inst.properties
        }),
{
    broadcast use {json::lookup_put, json::lookup_without};

    methods_differ();
    memory_keys();
    let record = follow::pending(inst)->0;
    let listed = host::remember(inst, scene::HUE_SCENES@, JView::Arr(data));
    let after = follow::collection_answered(inst, args).0;
    assert(after == follow::finalized(listed));
    assert(follow::pending(listed) == Some(record));
    assert(scene::scene_with_id(listed, id) == Some(native));
    assert(number as u64 % 0x1_0000_0000 == number);
    let link = follow::finished_link(record, id, native);
    link_fields(record, id, native);
    let done = scene::linked(listed, number, link);
    assert(after == host::forget(
        host::forget(done, scene::HUE_SCENE_PENDING@),
        scene::HUE_SCENE_PROBLEM@,
    ));
    a_link_is_found(listed, number, link, number);
    assert(scene::link_of(after, number) == Some(link));
    assert(bridge::identity(after) == bridge::identity(inst));
    assert(host::remembered(after, scene::HUE_SCENES@) == Some(JView::Arr(data)));
    assert(scene::scene_with_id(after, id) == Some(native));
}

/// A write whose scene the bridge does not list, or lists without its markers, links nothing: it
/// ends, every link stays what it was, and the problem is remembered.
pub proof fn an_unverified_write_links_nothing(
    inst: InstanceView,
    number: u32,
    args: Members,
    data: Seq<JView>,
    id: Seq<char>,
    other: u32,
)
    requires
        writes(inst, number),
        has_reached(inst, id),
        lists_scenes(args, data),
        match bridge::named(data, data.len(), id) {
            Some(native) => !scene::carries(
                native,
                publish::token_of(number),
                publish::appdata_of(number),
            ),
            None => true,
        },
    ensures
        ({
            let after = follow::collection_answered(inst, args).0;
            &&& follow::pending(after) is None
            &&& host::remembered(after, scene::HUE_SCENE_PROBLEM@) is Some
            &&& scene::link_of(after, other) == scene::link_of(inst, other)
        }),
{
    broadcast use {json::lookup_put, json::lookup_without};

    methods_differ();
    memory_keys();
    let record = follow::pending(inst)->0;
    let listed = host::remember(inst, scene::HUE_SCENES@, JView::Arr(data));
    assert(follow::pending(listed) == Some(record));
    assert(scene::scene_with_id(listed, id) == bridge::named(data, data.len(), id));
}

/// A scene that belongs here is recalled by one request, to the scene of the bridge that its link
/// names.
pub proof fn a_linked_scene_can_be_recalled(
    inst: InstanceView,
    request: SceneRequestView,
    mode: SceneRecall,
    link: JView,
    id: Seq<char>,
)
    requires
        role::role_of(inst) == Role::Bridge,
        host::has_property(inst, "Bridge address"@),
        request.ownership == SceneOwnership::Juno,
        request.operation == (SceneOperation::Recall { mode }),
        scene::owned_link(inst, request.scene) == Ok::<JView, Seq<char>>(link),
        link.get("scene"@) == Some(JView::Str(id)),
    ensures
        ({
            let (after, response) = scene::handled(inst, request);
            &&& after == inst
            &&& response.disposition == GroupDisposition::Handled
            &&& response.calls.len() == 1
            &&& bridge::bridge_call(
                inst,
                "PUT"@,
                "/clip/v2/resource/scene/"@ + id,
                Some(scene::recall_body(mode)),
            ) == Some(response.calls[0])
        }),
{
}

/// A scene whose publishing was queued ends up linked, once an answer names the scene that was
/// created and a list has that scene with its markers.
pub proof fn publishing_ends_in_a_link(
    inst: InstanceView,
    request: SceneRequestView,
    created: Members,
    listed: Members,
    data: Seq<JView>,
    id: Seq<char>,
    native: JView,
)
    requires
        scene::handled(inst, request).1.disposition == GroupDisposition::Queued,
        creates_scene(created, id),
        lists_scenes(listed, data),
        bridge::named(data, data.len(), id) == Some(native),
        scene::carries(
            native,
            publish::token_of(request.scene),
            publish::appdata_of(request.scene),
        ),
    ensures
        ({
            let begun = scene::handled(inst, request).0;
            let reached = follow::collection_answered(begun, created).0;
            let after = follow::collection_answered(reached, listed).0;
            &&& follow::pending(begun) is Some
            &&& has_reached(reached, id)
            &&& follow::pending(after) is None
            &&& scene::owned_link(after, request.scene) matches Ok(link) && link.get("scene"@)
                == Some(JView::Str(id))
        }),
{
    broadcast use json::lookup_put;

    methods_differ();
    let begun = scene::handled(inst, request).0;
    a_queued_write_is_remembered(inst, request);
    let reached = follow::collection_answered(begun, created).0;
    a_collection_answer_keeps_the_write(begun, request.scene, created);
    let record = follow::pending(begun)->0->Obj_0;
    assert(reached == host::remember(
        begun,
        scene::HUE_SCENE_PENDING@,
        JView::Obj(json::put(record, "resource"@, JView::Str(id))),
    ));
    assert(has_reached(reached, id));
    a_verified_write_is_linked(reached, request.scene, listed, data, id, native);
}

/// An answer that is about something else is left to somebody else, and changes nothing.
pub proof fn other_answers_are_left_alone(inst: InstanceView, args: Members)
    requires
        !text::holds(follow::url_of(args), "/clip/v2/resource/scene"@),
        !text::ends(follow::url_of(args), "/clip/v2/resource/light"@),
        !text::ends(follow::url_of(args), "/clip/v2/resource/room"@),
    ensures
        follow::collection_answered(inst, args) == (inst, None::<Seq<HostCallView>>),
{
}

/// A write that the bridge rejects ends, links nothing, and is remembered as a problem.
pub proof fn a_rejected_write_ends(inst: InstanceView, args: Members, other: u32)
    requires
        follow::status_code(args) >= 400,
    ensures
        follow::pending(follow::zone_answered(inst, args).0) is None,
        follow::zone_answered(inst, args).1.len() == 0,
        host::remembered(
            follow::zone_answered(inst, args).0,
            scene::HUE_SCENE_PROBLEM@,
        ) is Some,
        scene::link_of(follow::zone_answered(inst, args).0, other) == scene::link_of(inst, other),
{
    broadcast use {json::lookup_put, json::lookup_without};

    memory_keys();
}

/// Whether the write in progress waits for a zone of the bridge.
pub open spec fn awaits_zone(inst: InstanceView, zone: Seq<char>) -> bool {
    follow::pending(inst) matches Some(JView::Obj(record)) && json::lookup(record, "zone"@) == Some(
        JView::Str(zone),
    )
}

/// Whether the bridge lists a zone exactly as it was asked for: with its lights and its marker.
pub open spec fn lists_zone(inst: InstanceView, data: Seq<JView>, zone: Seq<char>) -> bool {
    match (bridge::named(data, data.len(), zone), follow::pending(inst)) {
        (Some(found), Some(JView::Obj(record))) => follow::zone_matches(
            found,
            follow::string_list(json::lookup(record, "light_ids"@)),
            scene::text_in(JView::Obj(record), "token"@),
        ),
        _ => false,
    }
}

/// A zone made for a scene is checked before the scene is written into it: where the bridge lists
/// it as it was asked for, the write goes on in that zone; where it does not, nothing is sent and
/// the write ends with a problem.
pub proof fn a_zone_is_checked_before_it_is_used(
    inst: InstanceView,
    number: u32,
    args: Members,
    data: Seq<JView>,
    zone: Seq<char>,
)
    requires
        writes(inst, number),
        awaits_zone(inst, zone),
        follow::method_of(args) == "GET"@,
        follow::status_code(args) < 400,
        follow::answer_data(args) == Some(data),
    ensures
        ({
            let (after, calls) = follow::zone_answered(inst, args);
            if lists_zone(inst, data, zone) {
                &&& writes(after, number)
                &&& follow::pending(after) matches Some(record) && record.get("group"@) == Some(
                    bridge::reference(zone, "zone"@),
                )
                &&& calls.len() <= 1
            } else {
                &&& follow::pending(after) is None
                &&& host::remembered(after, scene::HUE_SCENE_PROBLEM@) is Some
                &&& calls.len() == 0
            }
        }),
{
    broadcast use {json::lookup_put, json::lookup_without};

    methods_differ();
    record_keys();
    memory_keys();
    a_zone_answer_keeps_the_write(inst, number, args);
}

/// The effects that a light can play are exactly those that were read of it.
pub proof fn cached_effects_can_be_played(
    member: SceneMemberView,
    before: InstanceView,
    light: JView,
    values: Seq<JView>,
    effect: Seq<char>,
)
    requires
        publish::effect_values(light) == Some(values),
        member.instance == host::remember(
            before,
            publish::HUE_EFFECTS_V2@,
            json::string_array(json::strings(values)),
        ),
    ensures
        publish::effects_of(member).contains(effect) <==> json::strings(values).contains(effect),
{
    broadcast use json::lookup_put;

    let list = json::strings(values);
    json::strings_are_read_back(list);
    text::ascending_keeps_strings(list, list.len());
    assert(list.take(list.len() as int) =~= list);
}

/// The light that a member of a scene is, or the empty text.
pub open spec fn light_of(member: SceneMemberView) -> Seq<char> {
    json::str_or(host::property(member.instance, "Light id"@), ""@)
}

/// The lights of the members of a scene, in their order.
pub open spec fn lights_of(members: Seq<SceneMemberView>) -> Seq<Seq<char>> {
    members.map_values(|m: SceneMemberView| light_of(m))
}

/// Whether every member of a scene is a light.
pub open spec fn are_lights(members: Seq<SceneMemberView>) -> bool {
    forall|k: int|
        0 <= k < members.len() ==> host::has_property(
            (#[trigger] members[k]).instance,
            "Light id"@,
        )
}

pub(crate) proof fn ids_upto(members: Seq<SceneMemberView>, n: nat)
    requires
        n <= members.len(),
    ensures
        publish::light_ids(members, n) is Ok <==> are_lights(members.take(n as int)),
        publish::light_ids(members, n) matches Ok(ids) ==> {
            let lights = lights_of(members.take(n as int));
            &&& text::is_ascending(ids)
            &&& ids.len() <= n
            &&& ids.len() == n ==> lights.no_duplicates() && ids.to_multiset()
                == lights.to_multiset()
            &&& lights.no_duplicates() ==> ids.len() == n
            &&& forall|x: Seq<char>| #[trigger] ids.contains(x) <==> lights.contains(x)
        },
    decreases n,
{
    broadcast use {vstd::seq_lib::to_multiset_build, vstd::seq_lib::to_multiset_insert};

    let some = members.take(n as int);
    if n == 0 {
        assert(lights_of(some) =~= seq![]);
        assert(Seq::<Seq<char>>::empty() =~= lights_of(some));
    } else {
        ids_upto(members, (n - 1) as nat);
        let less = members.take(n - 1);
        let last = members[n - 1];
        let id = light_of(last);
        assert(some =~= less.push(last));
        assert(some[n - 1] == last);
        assert(forall|k: int| 0 <= k < n - 1 ==> #[trigger] less[k] == some[k]);
        reveal_strlit("");
        assert(are_lights(some) <==> are_lights(less) && host::has_property(
            last.instance,
            "Light id"@,
        )) by {
            if are_lights(some) {
                assert forall|k: int| 0 <= k < less.len() implies host::has_property(
                    (#[trigger] less[k]).instance,
                    "Light id"@,
                ) by {
                    assert(less[k] == some[k]);
                }
            }
        }
        match publish::light_ids(members, (n - 1) as nat) {
            Ok(rest) => {
                if host::has_property(last.instance, "Light id"@) {
                    text::with_one_adds_one(rest, id);
                    text::rank_bounds(rest, id, 0);
                    let before = lights_of(less);
                    let lights = lights_of(some);
                    let ids = text::with_one(rest, id);
                    assert(publish::light_ids(members, n) == Ok::<Seq<Seq<char>>, Seq<char>>(ids));
                    assert(lights =~= before.push(id));
                    assert(rest.contains(id) <==> before.contains(id));
                    assert forall|x: Seq<char>| #[trigger] ids.contains(x) <==> lights.contains(
                        x,
                    ) by {
                        assert(rest.contains(x) <==> before.contains(x));
                        text::contains_push(before, id, x);
                    }
                    if lights.no_duplicates() {
                        assert forall|i: int, j: int|
                            0 <= i < before.len() && 0 <= j < before.len() && i
                                != j implies before[i] != before[j] by {
                            assert(lights[i] == before[i] && lights[j] == before[j]);
                        }
                        assert(!before.contains(id)) by {
                            if before.contains(id) {
                                let k = choose|k: int| 0 <= k < before.len() && before[k] == id;
                                assert(lights[k] == lights[n - 1]);
                            }
                        }
                    }
                    if ids.len() == n {
                        assert(!rest.contains(id));
                        assert(rest.len() == n - 1);
                        assert forall|i: int, j: int|
                            0 <= i < lights.len() && 0 <= j < lights.len() && i
                                != j implies lights[i] != lights[j] by {
                            assert(!before.contains(id));
                        }
                    }
                }
            },
            Err(_) => {},
        }
    }
}

/// A scene may be published if and only if it has members, each of them is a light, and no two are
/// the same one. What it is then published with is its lights, in ascending order, each once.
pub proof fn a_scene_is_published_with_its_lights(request: SceneRequestView)
    ensures
        publish::member_lights(request) is Ok <==> request.members.len() > 0 && are_lights(
            request.members,
        ) && lights_of(request.members).no_duplicates(),
        publish::member_lights(request) matches Ok(ids) ==> {
            &&& text::is_ascending(ids)
            &&& ids.len() == request.members.len()
            &&& ids.to_multiset() == lights_of(request.members).to_multiset()
        },
{
    ids_upto(request.members, request.members.len());
    assert(request.members.take(request.members.len() as int) =~= request.members);
}

proof fn ascending_is_one(a: Seq<Seq<char>>, b: Seq<Seq<char>>, i: int)
    requires
        text::is_ascending(a),
        text::is_ascending(b),
        forall|x: Seq<char>| #[trigger] a.contains(x) <==> b.contains(x),
        0 <= i < a.len(),
    ensures
        i < b.len() && a[i] == b[i],
    decreases i,
{
    assert(a.contains(a[i]));
    let k = choose|k: int| 0 <= k < b.len() && b[k] == a[i];
    text::less_irreflexive(a[i], 0);
    if k < i {
        ascending_is_one(a, b, k);
        assert(text::less(a[k], a[i]));
    } else if k > i {
        assert(b.contains(b[i]) && a.contains(b[i]));
        let j = choose|j: int| 0 <= j < a.len() && a[j] == b[i];
        assert(text::less(b[i], b[k]));
        if j < i {
            ascending_is_one(a, b, j);
            assert(text::less(b[j], b[i]));
            text::less_irreflexive(b[i], 0);
        } else if j > i {
            assert(text::less(a[i], a[j]));
            text::less_transitive(a[i], b[i], a[i], 0);
        }
    }
}

proof fn same_members(a: Seq<SceneMemberView>, b: Seq<SceneMemberView>)
    requires
        a.to_multiset() == b.to_multiset(),
    ensures
        a.len() == b.len(),
        forall|m: SceneMemberView| #[trigger] a.contains(m) <==> b.contains(m),
        forall|x: Seq<char>| #[trigger] lights_of(a).contains(x) <==> lights_of(b).contains(x),
        are_lights(a) <==> are_lights(b),
{
    a.to_multiset_ensures();
    b.to_multiset_ensures();
    assert forall|m: SceneMemberView| #[trigger] a.contains(m) <==> b.contains(m) by {
        assert(a.contains(m) <==> a.to_multiset().count(m) > 0);
        assert(b.contains(m) <==> b.to_multiset().count(m) > 0);
    }
    holds_lights(a, b);
    holds_lights(b, a);
}

proof fn holds_lights(a: Seq<SceneMemberView>, b: Seq<SceneMemberView>)
    requires
        forall|m: SceneMemberView| #[trigger] a.contains(m) <==> b.contains(m),
    ensures
        forall|x: Seq<char>| #[trigger] lights_of(a).contains(x) ==> lights_of(b).contains(x),
        are_lights(b) ==> are_lights(a),
{
    assert forall|x: Seq<char>| #[trigger] lights_of(a).contains(x) implies lights_of(b).contains(
        x,
    ) by {
        let i = choose|i: int| 0 <= i < lights_of(a).len() && lights_of(a)[i] == x;
        assert(a.contains(a[i]));
        let j = choose|j: int| 0 <= j < b.len() && b[j] == a[i];
        assert(lights_of(b)[j] == x);
    }
    if are_lights(b) {
        assert forall|k: int| 0 <= k < a.len() implies host::has_property(
            (#[trigger] a[k]).instance,
            "Light id"@,
        ) by {
            assert(a.contains(a[k]));
            let j = choose|j: int| 0 <= j < b.len() && b[j] == a[k];
            assert(host::has_property(b[j].instance, "Light id"@));
        }
    }
}

/// The order of the members of a scene makes no difference to the lights it is published with.
pub proof fn members_come_in_any_order(request: SceneRequestView, other: SceneRequestView)
    requires
        request.members.to_multiset() == other.members.to_multiset(),
        publish::member_lights(request) is Ok,
    ensures
        publish::member_lights(other) == publish::member_lights(request),
{
    let (a, b) = (request.members, other.members);
    same_members(a, b);
    ids_upto(a, a.len());
    ids_upto(b, b.len());
    assert(a.take(a.len() as int) =~= a);
    assert(b.take(b.len() as int) =~= b);
    let x = publish::light_ids(a, a.len())->Ok_0;
    let y = publish::light_ids(b, b.len())->Ok_0;
    assert forall|s: Seq<char>| #[trigger] x.contains(s) <==> y.contains(s) by {
        assert(lights_of(a).contains(s) <==> lights_of(b).contains(s));
    }
    assert forall|i: int| 0 <= i < x.len() implies i < y.len() && #[trigger] x[i] == y[i] by {
        ascending_is_one(x, y, i);
    }
    if y.len() > x.len() {
        assert forall|s: Seq<char>| #[trigger] y.contains(s) <==> x.contains(s) by {
            assert(x.contains(s) <==> y.contains(s));
        }
        ascending_is_one(y, x, y.len() - 1);
    }
    if x.len() > 0 {
        assert(x[x.len() - 1] == y[x.len() - 1]);
    }
    assert(x =~= y);
}

} // verus!
