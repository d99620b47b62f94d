//! Laws of scenes on the bridge: what each operation sends, and why each refusal is made.

use vstd::prelude::*;
use crate::borrowed;
use crate::bridge;
use crate::host::{
    GroupDisposition, HostCallView, HttpRequestView, InstanceView, SceneOperation, SceneOwnership,
    SceneRecall, SceneRequestView, SceneResponseView,
};
use crate::json;
use crate::json::{JView, NumberView};
use crate::laws::borrowed as offered;
use crate::laws::report;
use crate::publish;
use crate::scene;
use crate::text;
use crate::wire;

verus! {

/// Whether a device is a bridge.
pub open spec fn is_bridge(inst: InstanceView) -> bool {
    &&& !report::is_set(inst, "Light id"@)
    &&& !report::is_set(inst, "Motion id"@)
    &&& !report::is_set(inst, "Button 1 id"@)
    &&& !report::is_set(inst, "Rotary id"@)
}

/// What a bridge remembers under a key as a list.
pub open spec fn cached(inst: InstanceView, key: Seq<char>) -> Seq<JView> {
    match json::lookup(inst.scratch, key) {
        Some(JView::Arr(items)) => items,
        _ => seq![],
    }
}

/// The text that a value is, if it is one.
pub open spec fn as_text(value: Option<JView>) -> Option<Seq<char>> {
    match value {
        Some(JView::Str(s)) => Some(s),
        _ => None,
    }
}

/// Whether the item at `i` is the first with an id.
pub open spec fn is_first(items: Seq<JView>, i: int, id: Seq<char>) -> bool {
    &&& 0 <= i < items.len()
    &&& items[i].get("id"@) == Some(JView::Str(id))
    &&& forall|j: int| 0 <= j < i ==> (#[trigger] items[j]).get("id"@) != Some(JView::Str(id))
}

/// Whether no item has an id.
pub open spec fn is_missing(items: Seq<JView>, id: Seq<char>) -> bool {
    forall|j: int| 0 <= j < items.len() ==> (#[trigger] items[j]).get("id"@) != Some(JView::Str(id))
}

/// An item is found by its id: the first that has it, and none where none has it.
pub proof fn an_item_is_found_by_its_id(items: Seq<JView>, i: int, id: Seq<char>, n: nat)
    requires
        n <= items.len(),
    ensures
        is_first(items, i, id) ==> bridge::named(items, n, id) == if i < n {
            Some(items[i])
        } else {
            None
        },
        is_missing(items, id) ==> bridge::named(items, n, id) is None,
    decreases n,
{
    if n > 0 {
        an_item_is_found_by_its_id(items, i, id, (n - 1) as nat);
        if is_first(items, i, id) && n - 1 < i {
            assert(items[n - 1].get("id"@) != Some(JView::Str(id)));
        }
    }
}

/// Whether a call asks the bridge, at its address and with its key, for a path with a body.
pub open spec fn asks(
    call: HostCallView,
    inst: InstanceView,
    method: Seq<char>,
    path: Seq<char>,
    body: JView,
) -> bool {
    as_text(json::lookup(inst.properties, "Bridge address"@)) matches Some(address) && call
        == HostCallView::Http(
        HttpRequestView {
            method,
            url: "https://"@ + address + path,
            headers: seq![
                (
                    "hue-application-key"@,
                    match as_text(json::lookup(inst.properties, "Application key"@)) {
                        Some(key) => key,
                        None => ""@,
                    },
                ),
            ],
            body: Some(wire::rendered(body)),
        },
    )
}

pub(crate) proof fn call_asks(inst: InstanceView, method: Seq<char>, path: Seq<char>, body: JView)
    ensures
        match bridge::bridge_call(inst, method, path, Some(body)) {
            Some(call) => report::is_set(inst, "Bridge address"@) && asks(
                call,
                inst,
                method,
                path,
                body,
            ),
            None => !report::is_set(inst, "Bridge address"@),
        },
{
    let key = json::str_or(crate::host::property(inst, "Application key"@), ""@);
    assert(seq![("hue-application-key"@, key)] =~= Seq::<(Seq<char>, Seq<char>)>::empty().push(
        ("hue-application-key"@, key),
    ));
}

/// Whether a request was refused for a reason: nothing is remembered or sent.
pub open spec fn is_refused(
    inst: InstanceView,
    outcome: (InstanceView, SceneResponseView),
    problem: Seq<char>,
) -> bool {
    &&& outcome.0 == inst
    &&& outcome.1.disposition == GroupDisposition::Refused
    &&& outcome.1.problem == Some(problem)
    &&& outcome.1.calls.len() == 0
}

/// Whether a scene was recalled: one request that plays it, still or moving, and nothing
/// remembered.
pub open spec fn is_played(
    inst: InstanceView,
    outcome: (InstanceView, SceneResponseView),
    resource: Seq<char>,
    mode: SceneRecall,
) -> bool {
    &&& outcome.0 == inst
    &&& outcome.1.disposition == GroupDisposition::Handled
    &&& outcome.1.problem is None
    &&& outcome.1.calls.len() == 1
    &&& asks(
        outcome.1.calls[0],
        inst,
        "PUT"@,
        "/clip/v2/resource/scene/"@ + resource,
        JView::Obj(
            seq![
                (
                    "recall"@,
                    JView::Obj(
                        seq![
                            (
                                "action"@,
                                JView::Str(
                                    if mode == SceneRecall::Dynamic {
                                        "dynamic_palette"@
                                    } else {
                                        "static"@
                                    },
                                ),
                            ),
                        ],
                    ),
                ),
            ],
        ),
    )
}

/// A borrowed scene that is still on the bridge is played as it is asked for. It is refused where
/// it is to move and has nothing to move with, where it is gone, where it is not known at all, and
/// where the bridge has no address.
pub proof fn a_borrowed_scene_is_played(
    inst: InstanceView,
    request: SceneRequestView,
    mode: SceneRecall,
    i: int,
)
    requires
        is_bridge(inst),
        request.operation == (SceneOperation::Recall { mode }),
        request.ownership == SceneOwnership::Borrowed,
    ensures
        ({
            let scenes = cached(inst, "hue_scenes"@);
            let outcome = scene::handled(inst, request);
            match request.resource {
                None => is_refused(inst, outcome, "the imported Hue scene has no resource id"@),
                Some(id) => {
                    &&& is_missing(scenes, id) ==> is_refused(
                        inst,
                        outcome,
                        "the imported Hue scene no longer exists"@,
                    )
                    &&& is_first(scenes, i, id) ==> {
                        let moves = offered::palette_holds(scenes[i], "color"@)
                            || offered::palette_holds(scenes[i], "effects"@);
                        if mode == SceneRecall::Dynamic && !moves {
                            is_refused(inst, outcome, "this Hue scene has no dynamic palette"@)
                        } else if !report::is_set(inst, "Bridge address"@) {
                            is_refused(
                                inst,
                                outcome,
                                "the Hue bridge connection is not configured"@,
                            )
                        } else {
                            is_played(inst, outcome, id, mode)
                        }
                    }
                },
            }
        }),
{
    broadcast use json::one_is_one;

    let scenes = cached(inst, "hue_scenes"@);
    match request.resource {
        Some(id) => {
            an_item_is_found_by_its_id(scenes, i, id, scenes.len());
            call_asks(
                inst,
                "PUT"@,
                "/clip/v2/resource/scene/"@ + id,
                scene::recall_body(mode),
            );
        },
        None => {},
    }
}

/// The link that a scene has, if it has one.
pub open spec fn link(inst: InstanceView, scene: u32) -> Option<JView> {
    match json::lookup(inst.scratch, "hue_scene_links"@) {
        Some(JView::Obj(links)) => json::lookup(links, text::decimal(scene as nat)),
        _ => None,
    }
}

/// What a scene on the bridge is called.
pub open spec fn called(native: JView) -> Seq<char> {
    match as_text(native.get2("metadata"@, "name"@)) {
        Some(name) => name,
        None => "Unnamed Hue scene"@,
    }
}

/// Whether a scene on the bridge carries the marks of a link, in its name and its data.
pub open spec fn is_marked(native: JView, link: JView) -> bool {
    match (as_text(link.get("token"@)), as_text(link.get("appdata"@))) {
        (Some(token), Some(mark)) => {
            &&& token.len() > 0
            &&& mark.len() > 0
            &&& native.get2("metadata"@, "appdata"@) == Some(JView::Str(mark))
            &&& exists|at: int| #[trigger]
                text::stands_at(called(native), token, at)
        },
        _ => false,
    }
}

/// Why a scene's link cannot be used, if it cannot: there is none, it is not ours, it is for
/// another bridge, it names no scene, the scene is gone, or the scene lost its marks.
pub open spec fn link_trouble(inst: InstanceView, scene: u32, i: int, why: Seq<char>) -> bool {
    match link(inst, scene) {
        None => why == "this Juno scene has not been published to Hue"@,
        Some(link) => if link.get("ownership"@) != Some(JView::Str("juno"@)) {
            why == "the Hue scene is not recorded as Juno-owned"@
        } else if as_text(link.get("bridge_id"@)) != as_text(
            json::lookup(inst.scratch, "hue_bridge_id"@),
        ) {
            why == "the saved scene belongs to a different Hue bridge"@
        } else {
            match as_text(link.get("scene"@)) {
                None => why == "the saved Hue scene link is incomplete"@,
                Some(id) => {
                    let scenes = cached(inst, "hue_scenes"@);
                    (is_missing(scenes, id) && why
                        == "the Juno-created Hue scene no longer exists"@) || (is_first(
                        scenes,
                        i,
                        id,
                    ) && !is_marked(scenes[i], link) && why
                        == "the Juno ownership markers changed; refusing to modify this Hue scene"@)
                },
            }
        },
    }
}

/// Whether a scene's link can be used: it is ours, for this bridge, and the scene at `i` of those
/// on the bridge is the one it names and carries its marks.
pub open spec fn link_holds(inst: InstanceView, scene: u32, i: int, id: Seq<char>) -> bool {
    link(inst, scene) matches Some(link) && {
        &&& link.get("ownership"@) == Some(JView::Str("juno"@))
        &&& as_text(link.get("bridge_id"@)) == as_text(
            json::lookup(inst.scratch, "hue_bridge_id"@),
        )
        &&& link.get("scene"@) == Some(JView::Str(id))
        &&& is_first(cached(inst, "hue_scenes"@), i, id)
        &&& is_marked(cached(inst, "hue_scenes"@)[i], link)
    }
}

pub(crate) proof fn marks_are_seen(native: JView, link: JView)
    ensures
        scene::carries(
            native,
            scene::text_in(link, "token"@),
            scene::text_in(link, "appdata"@),
        ) <==> is_marked(native, link),
{
    reveal_strlit("");
    assert(""@.len() == 0);
    let title = borrowed::scene_title(native);
    assert(title == called(native));
    match (as_text(link.get("token"@)), as_text(link.get("appdata"@))) {
        (Some(token), Some(mark)) => {
            if text::holds(title, token) {
                let at = choose|at: int| text::stands_at(title, token, at);
                assert(text::stands_at(title, token, at));
            }
        },
        _ => {},
    }
}

/// A link is used exactly where it holds, and refused otherwise for the first thing wrong with it.
pub proof fn a_link_is_used_where_it_holds(
    inst: InstanceView,
    scene: u32,
    i: int,
    id: Seq<char>,
    why: Seq<char>,
)
    ensures
        link_holds(inst, scene, i, id) ==> scene::owned_link(inst, scene) == Ok::<
            JView,
            Seq<char>,
        >(link(inst, scene)->0),
        link_trouble(inst, scene, i, why) ==> scene::owned_link(inst, scene) == Err::<
            JView,
            Seq<char>,
        >(why),
{
    let scenes = cached(inst, "hue_scenes"@);
    match link(inst, scene) {
        Some(l) => {
            match as_text(l.get("scene"@)) {
                Some(named) => {
                    an_item_is_found_by_its_id(scenes, i, named, scenes.len());
                    if 0 <= i < scenes.len() {
                        marks_are_seen(scenes[i], l);
                    }
                },
                None => {},
            }
        },
        None => {},
    }
}

/// A scene of this house is played where its link holds, and refused otherwise.
pub proof fn an_own_scene_is_played(
    inst: InstanceView,
    request: SceneRequestView,
    mode: SceneRecall,
    i: int,
    id: Seq<char>,
    why: Seq<char>,
)
    requires
        is_bridge(inst),
        request.operation == (SceneOperation::Recall { mode }),
        request.ownership == SceneOwnership::Juno,
    ensures
        link_trouble(inst, request.scene, i, why) ==> is_refused(
            inst,
            scene::handled(inst, request),
            why,
        ),
        link_holds(inst, request.scene, i, id) ==> if report::is_set(inst, "Bridge address"@) {
            is_played(inst, scene::handled(inst, request), id, mode)
        } else {
            is_refused(
                inst,
                scene::handled(inst, request),
                "the Hue bridge connection is not configured"@,
            )
        },
{
    broadcast use json::one_is_one;

    a_link_is_used_where_it_holds(inst, request.scene, i, id, why);
    call_asks(inst, "PUT"@, "/clip/v2/resource/scene/"@ + id, scene::recall_body(mode));
}

/// Whether a bridge remembers a write that it has begun: what kind it is, what it is for, and what
/// is to be checked when it is done.
pub open spec fn is_begun(
    record: JView,
    kind: Seq<char>,
    request: SceneRequestView,
    bridge_id: Seq<char>,
    lights: Seq<Seq<char>>,
    body: JView,
) -> bool {
    &&& record.get("kind"@) == Some(JView::Str(kind))
    &&& record.get("scene"@) == Some(JView::Num(NumberView::PosInt(request.scene as u64)))
    &&& record.get("bridge_id"@) == Some(JView::Str(bridge_id))
    &&& record.get("light_ids"@) == Some(
        JView::Arr(lights.map_values(|id: Seq<char>| JView::Str(id))),
    )
    &&& record.get("name"@) == Some(
        JView::Str(publish::published_name(request.scene, request.name)),
    )
    &&& record.get("token"@) == Some(
        JView::Str("[Juno "@ + text::hex(request.scene as nat, 8) + "]"@),
    )
    &&& record.get("appdata"@) == Some(
        JView::Str("juno:"@ + text::hex(request.scene as nat, 8)),
    )
    &&& record.get("body"@) == Some(body)
}

/// Whether a write was begun: one request, a record of it, and nothing else remembered.
pub open spec fn is_queued(
    inst: InstanceView,
    outcome: (InstanceView, SceneResponseView),
    kind: Seq<char>,
) -> bool {
    &&& outcome.1.disposition == GroupDisposition::Queued
    &&& outcome.1.problem is None
    &&& outcome.1.status == JView::Obj(seq![("pending"@, JView::Str(kind))])
    &&& outcome.1.calls.len() == 1
    &&& outcome.0.properties == inst.properties
    &&& json::lookup(outcome.0.scratch, "hue_scene_pending"@) is Some
    &&& forall|key: Seq<char>|
        key != "hue_scene_pending"@ ==> #[trigger] json::lookup(outcome.0.scratch, key)
            == json::lookup(inst.scratch, key)
}

proof fn record_keys()
    ensures
        "kind"@[0] == 'k',
        "scene"@[0] == 's',
        "bridge_id"@[0] == 'b' && "bridge_id"@[1] == 'r',
        "light_ids"@[0] == 'l',
        "name"@[0] == 'n',
        "token"@[0] == 't',
        "appdata"@[0] == 'a',
        "body"@[0] == 'b' && "body"@[1] == 'o',
        "group"@[0] == 'g',
        "resource"@[0] == 'r',
        "existing"@[0] == 'e',
        "metadata"@[0] == 'm',
        "children"@[0] == 'c',
        "archetype"@[0] == 'a',
        "rid"@.len() == 3,
        "rtype"@.len() == 5,
{
    reveal_strlit("kind");
    reveal_strlit("scene");
    reveal_strlit("bridge_id");
    reveal_strlit("light_ids");
    reveal_strlit("name");
    reveal_strlit("token");
    reveal_strlit("appdata");
    reveal_strlit("body");
    reveal_strlit("group");
    reveal_strlit("resource");
    reveal_strlit("existing");
    reveal_strlit("metadata");
    reveal_strlit("children");
    reveal_strlit("archetype");
    reveal_strlit("rid");
    reveal_strlit("rtype");
}

proof fn write_is_recorded(
    kind: Seq<char>,
    request: SceneRequestView,
    bridge_id: Seq<char>,
    lights: Seq<Seq<char>>,
    body: JView,
    group: JView,
    other: JView,
)
    ensures
        ({
            let common = scene::pending_common(
                kind,
                request.scene,
                bridge_id,
                lights,
                publish::published_name(request.scene, request.name),
                publish::token_of(request.scene),
                publish::appdata_of(request.scene),
                body,
            );
            let grouped = JView::Obj(
                json::put(json::put(common, "group"@, group), "resource"@, other),
            );
            let zoned = JView::Obj(json::put(common, "existing"@, other));
            &&& is_begun(grouped, kind, request, bridge_id, lights, body)
            &&& grouped.get("group"@) == Some(group)
            &&& grouped.get("resource"@) == Some(other)
            &&& is_begun(zoned, kind, request, bridge_id, lights, body)
            &&& zoned.get("existing"@) == Some(other)
        }),
{
    broadcast use json::lookup_put;

    record_keys();
}

/// Whether the scene that is to be published is on the bridge already, by a link that holds, or
/// was never linked.
pub open spec fn is_existing(
    inst: InstanceView,
    scene: u32,
    i: int,
    existing: Option<Seq<char>>,
) -> bool {
    match existing {
        Some(id) => link_holds(inst, scene, i, id),
        None => link(inst, scene) is None,
    }
}

/// A scene of this house whose lights make up a group is written to that group in one request: a
/// new one where it was never published, and over its own otherwise. What was begun is remembered.
pub proof fn a_scene_is_written_to_its_group(
    inst: InstanceView,
    request: SceneRequestView,
    bridge_id: Seq<char>,
    lights: Seq<Seq<char>>,
    group: JView,
    i: int,
    existing: Option<Seq<char>>,
)
    requires
        is_bridge(inst),
        report::is_set(inst, "Bridge address"@),
        request.operation == SceneOperation::Synchronize,
        request.ownership == SceneOwnership::Juno,
        json::lookup(inst.scratch, "hue_scene_pending"@) is None,
        json::lookup(inst.scratch, "hue_bridge_id"@) == Some(JView::Str(bridge_id)),
        publish::member_lights(request) == Ok::<Seq<Seq<char>>, Seq<char>>(lights),
        is_existing(inst, request.scene, i, existing),
        publish::group_with(inst, lights) == Some(group),
        publish::publish_problem(request) is None,
    ensures
        ({
            let outcome = scene::handled(inst, request);
            let body = JView::Obj(publish::body_of(request, group));
            let record = json::lookup(outcome.0.scratch, "hue_scene_pending"@)->0;
            let kind = if existing is Some {
                "scene_update"@
            } else {
                "scene_create"@
            };
            &&& is_queued(inst, outcome, kind)
            &&& is_begun(record, kind, request, bridge_id, lights, body)
            &&& record.get("group"@) == Some(group)
            &&& record.get("resource"@) == Some(
                match existing {
                    Some(id) => JView::Str(id),
                    None => JView::Null,
                },
            )
            &&& match existing {
                Some(id) => asks(
                    outcome.1.calls[0],
                    inst,
                    "PUT"@,
                    "/clip/v2/resource/scene/"@ + id,
                    body,
                ),
                None => asks(
                    outcome.1.calls[0],
                    inst,
                    "POST"@,
                    "/clip/v2/resource/scene"@,
                    body,
                ),
            }
        }),
{
    broadcast use {json::lookup_put, json::one_is_one};

    let body = JView::Obj(publish::body_of(request, group));
    match existing {
        Some(id) => {
            a_link_is_used_where_it_holds(inst, request.scene, i, id, ""@);
            call_asks(inst, "PUT"@, "/clip/v2/resource/scene/"@ + id, body);
            write_is_recorded(
                "scene_update"@,
                request,
                bridge_id,
                lights,
                body,
                group,
                JView::Str(id),
            );
        },
        None => {
            call_asks(inst, "POST"@, "/clip/v2/resource/scene"@, body);
            write_is_recorded(
                "scene_create"@,
                request,
                bridge_id,
                lights,
                body,
                group,
                JView::Null,
            );
        },
    }
}

/// Whether a body makes a zone of some lights under a name.
pub open spec fn makes_zone(body: JView, name: Seq<char>, lights: Seq<Seq<char>>) -> bool {
    &&& body.get2("metadata"@, "name"@) == Some(JView::Str(name))
    &&& body.get2("metadata"@, "archetype"@) == Some(JView::Str("other"@))
    &&& body.get("children"@) matches Some(JView::Arr(children)) && children.len() == lights.len()
        && (forall|k: int|
        0 <= k < lights.len() ==> (#[trigger] children[k]).get("rid"@) == Some(
            JView::Str(lights[k]),
        ) && children[k].get("rtype"@) == Some(JView::Str("light"@)))
}

proof fn zone_is_made(name: Seq<char>, lights: Seq<Seq<char>>)
    ensures
        makes_zone(scene::zone_body(name, lights), name, lights),
{
    broadcast use json::lookup_put;

    record_keys();
    let body = scene::zone_body(name, lights);
    let children = bridge::light_references(lights);
    assert(body.get("children"@) == Some(JView::Arr(children)));
    assert forall|k: int| 0 <= k < lights.len() implies (#[trigger] children[k]).get("rid"@)
        == Some(JView::Str(lights[k])) && children[k].get("rtype"@) == Some(
        JView::Str("light"@),
    ) by {
        assert(children[k] == bridge::reference(lights[k], "light"@));
    }
}

/// A scene of this house whose lights make up no group is given a zone of its own first, with
/// exactly its lights and under its marked name. What was begun is remembered, with the scene it is
/// to be written over where it was published before.
pub proof fn a_scene_without_a_group_gets_a_zone(
    inst: InstanceView,
    request: SceneRequestView,
    bridge_id: Seq<char>,
    lights: Seq<Seq<char>>,
    i: int,
    existing: Option<Seq<char>>,
)
    requires
        is_bridge(inst),
        report::is_set(inst, "Bridge address"@),
        request.operation == SceneOperation::Synchronize,
        request.ownership == SceneOwnership::Juno,
        json::lookup(inst.scratch, "hue_scene_pending"@) is None,
        json::lookup(inst.scratch, "hue_bridge_id"@) == Some(JView::Str(bridge_id)),
        publish::member_lights(request) == Ok::<Seq<Seq<char>>, Seq<char>>(lights),
        is_existing(inst, request.scene, i, existing),
        publish::group_with(inst, lights) is None,
        publish::publish_problem(request) is None,
    ensures
        ({
            let outcome = scene::handled(inst, request);
            let record = json::lookup(outcome.0.scratch, "hue_scene_pending"@)->0;
            let name = publish::published_name(request.scene, request.name);
            &&& is_queued(inst, outcome, "zone_create"@)
            &&& exists|body: JView|
                makes_zone(body, name, lights) && #[trigger] asks(
                    outcome.1.calls[0],
                    inst,
                    "POST"@,
                    "/clip/v2/resource/zone"@,
                    body,
                )
            &&& exists|group: JView|
                group.get("rid"@) == Some(JView::Str("pending"@)) && group.get("rtype"@) == Some(
                    JView::Str("zone"@),
                ) && is_begun(
                    record,
                    "zone_create"@,
                    request,
                    bridge_id,
                    lights,
                    JView::Obj(#[trigger] publish::body_of(request, group)),
                )
            &&& record.get("existing"@) == Some(
                match existing {
                    Some(id) => JView::Str(id),
                    None => JView::Null,
                },
            )
        }),
{
    broadcast use {json::lookup_put, json::one_is_one};

    record_keys();
    let name = publish::published_name(request.scene, request.name);
    let zone = scene::zone_body(name, lights);
    call_asks(inst, "POST"@, "/clip/v2/resource/zone"@, zone);
    zone_is_made(name, lights);
    let group = bridge::reference("pending"@, "zone"@);
    let body = JView::Obj(publish::body_of(request, group));
    let other = match existing {
        Some(id) => JView::Str(id),
        None => JView::Null,
    };
    match existing {
        Some(id) => {
            a_link_is_used_where_it_holds(inst, request.scene, i, id, ""@);
        },
        None => {},
    }
    write_is_recorded("zone_create"@, request, bridge_id, lights, body, group, other);
    let outcome = scene::handled(inst, request);
    assert(asks(outcome.1.calls[0], inst, "POST"@, "/clip/v2/resource/zone"@, zone));
    assert(group.get("rid"@) == Some(JView::Str("pending"@)));
}

/// A scene of this house that cannot be published is refused, for the first of these reasons:
/// another write is begun, a member is no light, the bridge is not known yet, its link does not
/// hold, or what is asked for is beyond the bridge.
pub proof fn a_scene_that_cannot_be_published_is_refused(
    inst: InstanceView,
    request: SceneRequestView,
    i: int,
    why: Seq<char>,
    existing: Option<Seq<char>>,
)
    requires
        is_bridge(inst),
        request.operation == SceneOperation::Synchronize,
        request.ownership == SceneOwnership::Juno,
    ensures
        ({
            let outcome = scene::handled(inst, request);
            if json::lookup(inst.scratch, "hue_scene_pending"@) is Some {
                is_refused(inst, outcome, "another Hue scene write is still in progress"@)
            } else {
                match publish::member_lights(request) {
                    Err(problem) => is_refused(inst, outcome, problem),
                    Ok(_) => if as_text(json::lookup(inst.scratch, "hue_bridge_id"@)) is None {
                        is_refused(inst, outcome, "the Hue bridge identity has not loaded yet"@)
                    } else if link(inst, request.scene) is Some && link_trouble(
                        inst,
                        request.scene,
                        i,
                        why,
                    ) {
                        is_refused(inst, outcome, why)
                    } else if is_existing(inst, request.scene, i, existing)
                        && report::is_set(inst, "Bridge address"@) {
                        publish::publish_problem(request) matches Some(problem) ==> is_refused(
                            inst,
                            outcome,
                            problem,
                        )
                    } else {
                        true
                    },
                }
            }
        }),
{
    match existing {
        Some(id) => {
            a_link_is_used_where_it_holds(inst, request.scene, i, id, why);
        },
        None => {
            a_link_is_used_where_it_holds(inst, request.scene, i, ""@, why);
        },
    }
}

/// Whether a child is listed in a group.
pub open spec fn is_child(group: JView, kind: Seq<char>, id: Seq<char>) -> bool {
    group.get("children"@) matches Some(JView::Arr(children)) && exists|k: int|
        0 <= k < children.len() && (#[trigger] children[k]).get("rid"@) == Some(JView::Str(id))
            && children[k].get("rtype"@) == Some(JView::Str(kind))
}

proof fn children_are_listed(children: Seq<JView>, n: nat, kind: Seq<char>, id: Seq<char>)
    requires
        n <= children.len(),
    ensures
        text::is_ascending(bridge::child_ids(children, n, kind)),
        bridge::child_ids(children, n, kind).contains(id) <==> exists|k: int|
            0 <= k < n && (#[trigger] children[k]).get("rid"@) == Some(JView::Str(id))
                && children[k].get("rtype"@) == Some(JView::Str(kind)),
    decreases n,
{
    if n > 0 {
        let m = (n - 1) as nat;
        children_are_listed(children, m, kind, id);
        let before = bridge::child_ids(children, m, kind);
        match json::as_str(children[n - 1].get("rid"@)) {
            Some(rid) => {
                text::with_one_adds_one(before, rid);
            },
            None => {},
        }
        if exists|k: int|
            0 <= k < n && (#[trigger] children[k]).get("rid"@) == Some(JView::Str(id))
                && children[k].get("rtype"@) == Some(JView::Str(kind)) {
            let k = choose|k: int|
                0 <= k < n && (#[trigger] children[k]).get("rid"@) == Some(JView::Str(id))
                    && children[k].get("rtype"@) == Some(JView::Str(kind));
            if k < m {
                assert(before.contains(id));
            }
        }
        if before.contains(id) {
            let k = choose|k: int|
                0 <= k < m && (#[trigger] children[k]).get("rid"@) == Some(JView::Str(id))
                    && children[k].get("rtype"@) == Some(JView::Str(kind));
            assert(children[k].get("rid"@) == Some(JView::Str(id)));
        }
        if bridge::child_ids(children, n, kind).contains(id) && !before.contains(id) {
            assert(children[n - 1].get("rid"@) == Some(JView::Str(id)));
        }
    }
}

/// The children of a group are those it lists of a kind, ascending and each once.
pub proof fn a_group_has_the_children_it_lists(group: JView, kind: Seq<char>, id: Seq<char>)
    ensures
        text::is_ascending(bridge::children_of(group, kind)),
        bridge::children_of(group, kind).contains(id) <==> is_child(group, kind, id),
{
    let children = json::list_or_empty(json::as_array(group.get("children"@)));
    children_are_listed(children, children.len(), kind, id);
}

/// Whether a light that the bridge remembers stands in a room: its device is a child of the room.
pub open spec fn is_in_room(inst: InstanceView, room: JView, id: Seq<char>) -> bool {
    exists|k: int| #[trigger] stands_in(cached(inst, "hue_lights"@), k, room, id)
}

/// Whether the light at `k` has an id and belongs to a device in a room.
pub open spec fn stands_in(lights: Seq<JView>, k: int, room: JView, id: Seq<char>) -> bool {
    &&& 0 <= k < lights.len()
    &&& lights[k].get("id"@) == Some(JView::Str(id))
    &&& as_text(lights[k].get2("owner"@, "rid"@)) matches Some(device) && is_child(
        room,
        "device"@,
        device,
    )
}

proof fn lights_are_owned(lights: Seq<JView>, n: nat, room: JView, id: Seq<char>)
    requires
        n <= lights.len(),
    ensures
        ({
            let owned = publish::owned_lights(lights, n, bridge::children_of(room, "device"@));
            &&& text::is_ascending(owned)
            &&& owned.contains(id) <==> exists|k: int|
                k < n && #[trigger] stands_in(lights, k, room, id)
        }),
    decreases n,
{
    if n > 0 {
        let m = (n - 1) as nat;
        lights_are_owned(lights, m, room, id);
        let devices = bridge::children_of(room, "device"@);
        let before = publish::owned_lights(lights, m, devices);
        let all = publish::owned_lights(lights, n, devices);
        let light = lights[n - 1];
        match (json::as_str(light.get2("owner"@, "rid"@)), json::as_str(light.get("id"@))) {
            (Some(owner), Some(rid)) => {
                a_group_has_the_children_it_lists(room, "device"@, owner);
                text::with_one_adds_one(before, rid);
                if devices.contains(owner) && rid == id {
                    assert(stands_in(lights, n - 1, room, id));
                }
            },
            _ => {},
        }
        if before.contains(id) {
            let k = choose|k: int| k < m && #[trigger] stands_in(lights, k, room, id);
            assert(k < n && stands_in(lights, k, room, id));
        }
        if exists|k: int| k < n && #[trigger] stands_in(lights, k, room, id) {
            let k = choose|k: int| k < n && #[trigger] stands_in(lights, k, room, id);
            if k < m {
                assert(before.contains(id));
            }
        }
    }
}

/// The lights of a room are those of the devices in it, ascending and each once.
pub proof fn a_room_has_the_lights_of_its_devices(inst: InstanceView, room: JView, id: Seq<char>)
    ensures
        text::is_ascending(publish::room_lights(inst, room)),
        publish::room_lights(inst, room).contains(id) <==> is_in_room(inst, room, id),
{
    let lights = cached(inst, "hue_lights"@);
    lights_are_owned(lights, lights.len(), room, id);
}

proof fn same_members(a: Seq<Seq<char>>, b: Seq<Seq<char>>)
    requires
        text::is_ascending(a),
        text::is_ascending(b),
        forall|id: Seq<char>| #[trigger] a.contains(id) <==> b.contains(id),
    ensures
        a == b,
    decreases a.len() + b.len(),
{
    if a.len() == 0 {
        if b.len() > 0 {
            assert(b.contains(b[0]));
            assert(a.contains(b[0]));
        }
        assert(a =~= b);
    } else if b.len() == 0 {
        assert(a.contains(a[0]));
        assert(b.contains(a[0]));
    } else {
        let x = a.last();
        let y = b.last();
        if x != y {
            assert(a.contains(x));
            assert(b.contains(x));
            assert(b.contains(y));
            assert(a.contains(y));
            let i = a.index_of(y);
            let j = b.index_of(x);
            assert(text::less(a[i], a[a.len() - 1]));
            assert(text::less(b[j], b[b.len() - 1]));
            text::less_transitive(x, y, x, 0);
            text::less_irreflexive(x, 0);
        }
        let p = a.drop_last();
        let q = b.drop_last();
        assert(text::is_ascending(p)) by {
            assert forall|i: int, j: int| 0 <= i < j < p.len() implies text::less(
                #[trigger] p[i],
                #[trigger] p[j],
            ) by {
                assert(text::less(a[i], a[j]));
            }
        }
        assert(text::is_ascending(q)) by {
            assert forall|i: int, j: int| 0 <= i < j < q.len() implies text::less(
                #[trigger] q[i],
                #[trigger] q[j],
            ) by {
                assert(text::less(b[i], b[j]));
            }
        }
        assert forall|id: Seq<char>| #[trigger] p.contains(id) <==> q.contains(id) by {
            dropped(a, id);
            dropped(b, id);
        }
        same_members(p, q);
        assert(a =~= p.push(x));
        assert(b =~= q.push(y));
    }
}

proof fn dropped(a: Seq<Seq<char>>, id: Seq<char>)
    requires
        text::is_ascending(a),
        a.len() > 0,
    ensures
        a.drop_last().contains(id) <==> a.contains(id) && id != a.last(),
{
    let p = a.drop_last();
    if p.contains(id) {
        let i = p.index_of(id);
        assert(a[i] == id);
        assert(text::less(a[i], a[a.len() - 1]));
        text::less_irreflexive(id, 0);
    }
    if a.contains(id) && id != a.last() {
        let i = a.index_of(id);
        assert(p[i] == id);
    }
}

/// Whether a zone has exactly some lights.
pub open spec fn zone_has(zone: JView, lights: Seq<Seq<char>>) -> bool {
    forall|id: Seq<char>| #[trigger] lights.contains(id) <==> is_child(zone, "light"@, id)
}

/// Whether a room has exactly some lights.
pub open spec fn room_has(inst: InstanceView, room: JView, lights: Seq<Seq<char>>) -> bool {
    forall|id: Seq<char>| #[trigger] lights.contains(id) <==> is_in_room(inst, room, id)
}

pub(crate) proof fn zone_is_exact(zone: JView, lights: Seq<Seq<char>>)
    requires
        text::is_ascending(lights),
    ensures
        bridge::children_of(zone, "light"@) == lights <==> zone_has(zone, lights),
{
    let children = bridge::children_of(zone, "light"@);
    assert forall|id: Seq<char>| #[trigger] children.contains(id) <==> is_child(
        zone,
        "light"@,
        id,
    ) by {
        a_group_has_the_children_it_lists(zone, "light"@, id);
    }
    a_group_has_the_children_it_lists(zone, "light"@, ""@);
    if zone_has(zone, lights) {
        assert forall|id: Seq<char>| #[trigger] children.contains(id) <==> lights.contains(
            id,
        ) by {}
        same_members(children, lights);
    }
}

proof fn room_is_exact(inst: InstanceView, room: JView, lights: Seq<Seq<char>>)
    requires
        text::is_ascending(lights),
    ensures
        publish::room_lights(inst, room) == lights <==> room_has(inst, room, lights),
{
    let inside = publish::room_lights(inst, room);
    assert forall|id: Seq<char>| #[trigger] inside.contains(id) <==> is_in_room(inst, room, id) by {
        a_room_has_the_lights_of_its_devices(inst, room, id);
    }
    a_room_has_the_lights_of_its_devices(inst, room, ""@);
    if room_has(inst, room, lights) {
        assert forall|id: Seq<char>| #[trigger] inside.contains(id) <==> lights.contains(id) by {}
        same_members(inside, lights);
    }
}

/// Whether the zone at `i` is the first that has exactly some lights.
pub open spec fn is_first_zone(inst: InstanceView, i: int, lights: Seq<Seq<char>>) -> bool {
    let zones = cached(inst, "hue_zones"@);
    &&& 0 <= i < zones.len()
    &&& zone_has(zones[i], lights)
    &&& forall|j: int| 0 <= j < i ==> !zone_has(#[trigger] zones[j], lights)
}

/// Whether the room at `i` is the first that has exactly some lights.
pub open spec fn is_first_room(inst: InstanceView, i: int, lights: Seq<Seq<char>>) -> bool {
    let rooms = cached(inst, "hue_rooms"@);
    &&& 0 <= i < rooms.len()
    &&& room_has(inst, rooms[i], lights)
    &&& forall|j: int| 0 <= j < i ==> !room_has(inst, #[trigger] rooms[j], lights)
}

proof fn zone_is_found(zones: Seq<JView>, i: int, lights: Seq<Seq<char>>, n: nat)
    requires
        n <= zones.len(),
        text::is_ascending(lights),
        0 <= i <= zones.len(),
        i < zones.len() ==> zone_has(zones[i], lights),
        forall|j: int| 0 <= j < i ==> !zone_has(#[trigger] zones[j], lights),
    ensures
        publish::zone_with(zones, n, lights) == if i < n {
            Some(zones[i])
        } else {
            None
        },
    decreases n,
{
    if n > 0 {
        zone_is_found(zones, i, lights, (n - 1) as nat);
        zone_is_exact(zones[n - 1], lights);
        if n - 1 < i {
            assert(!zone_has(zones[n - 1], lights));
        }
    }
}

proof fn room_is_found(
    inst: InstanceView,
    rooms: Seq<JView>,
    i: int,
    lights: Seq<Seq<char>>,
    n: nat,
)
    requires
        n <= rooms.len(),
        text::is_ascending(lights),
        0 <= i <= rooms.len(),
        i < rooms.len() ==> room_has(inst, rooms[i], lights),
        forall|j: int| 0 <= j < i ==> !room_has(inst, #[trigger] rooms[j], lights),
    ensures
        publish::room_with(inst, rooms, n, lights) == if i < n {
            Some(rooms[i])
        } else {
            None
        },
    decreases n,
{
    if n > 0 {
        room_is_found(inst, rooms, i, lights, (n - 1) as nat);
        room_is_exact(inst, rooms[n - 1], lights);
        if n - 1 < i {
            assert(!room_has(inst, rooms[n - 1], lights));
        }
    }
}

/// Whether a reference names a group of a kind by its id, and there is none where it has no id.
pub open spec fn is_reference(found: Option<JView>, group: JView, kind: Seq<char>) -> bool {
    match (found, as_text(group.get("id"@))) {
        (Some(reference), Some(id)) => reference.get("rid"@) == Some(JView::Str(id))
            && reference.get("rtype"@) == Some(JView::Str(kind)),
        (None, None) => true,
        _ => false,
    }
}

/// The group for some lights is the first zone that has exactly them, and without one the first
/// room that does; without either there is none.
pub proof fn a_group_has_exactly_the_lights(
    inst: InstanceView,
    lights: Seq<Seq<char>>,
    i: int,
)
    requires
        text::is_ascending(lights),
    ensures
        ({
            let zones = cached(inst, "hue_zones"@);
            let rooms = cached(inst, "hue_rooms"@);
            let found = publish::group_with(inst, lights);
            &&& is_first_zone(inst, i, lights) ==> is_reference(found, zones[i], "zone"@)
            &&& (forall|j: int| 0 <= j < zones.len() ==> !zone_has(#[trigger] zones[j], lights))
                && is_first_room(inst, i, lights) ==> is_reference(found, rooms[i], "room"@)
            &&& (forall|j: int| 0 <= j < zones.len() ==> !zone_has(#[trigger] zones[j], lights))
                && (forall|j: int|
                0 <= j < rooms.len() ==> !room_has(inst, #[trigger] rooms[j], lights))
                ==> found is None
        }),
{
    broadcast use json::lookup_put;

    record_keys();
    let zones = cached(inst, "hue_zones"@);
    let rooms = cached(inst, "hue_rooms"@);
    if is_first_zone(inst, i, lights) {
        zone_is_found(zones, i, lights, zones.len());
    }
    if forall|j: int| 0 <= j < zones.len() ==> !zone_has(#[trigger] zones[j], lights) {
        zone_is_found(zones, zones.len() as int, lights, zones.len());
        if is_first_room(inst, i, lights) {
            room_is_found(inst, rooms, i, lights, rooms.len());
        }
        if forall|j: int| 0 <= j < rooms.len() ==> !room_has(inst, #[trigger] rooms[j], lights) {
            room_is_found(inst, rooms, rooms.len() as int, lights, rooms.len());
        }
    }
}

proof fn status_keys()
    ensures
        "bridge_ready"@[0] == 'b' && "bridge_ready"@[1] == 'r',
        "ownership"@[0] == 'o',
        "borrowed"@[0] == 'b' && "borrowed"@[1] == 'o',
        "linked"@[0] == 'l',
        "effects_v2"@[0] == 'e',
        "pending"@[0] == 'p' && "pending"@[1] == 'e',
        "problem"@[0] == 'p' && "problem"@[1] == 'r',
        "resource"@[0] == 'r',
        "name"@[0] == 'n',
        "dynamic_palette"@[0] == 'd' && "dynamic_palette"@[1] == 'y',
        "device"@[0] == 'd' && "device"@[1] == 'e',
        "values"@[0] == 'v' && "values"@.len() == 6,
        "valid"@[0] == 'v' && "valid"@.len() == 5,
        "token"@[0] == 't',
        "appdata"@[0] == 'a',
{
    reveal_strlit("bridge_ready");
    reveal_strlit("ownership");
    reveal_strlit("borrowed");
    reveal_strlit("linked");
    reveal_strlit("effects_v2");
    reveal_strlit("pending");
    reveal_strlit("problem");
    reveal_strlit("resource");
    reveal_strlit("name");
    reveal_strlit("dynamic_palette");
    reveal_strlit("device");
    reveal_strlit("values");
    reveal_strlit("valid");
    reveal_strlit("token");
    reveal_strlit("appdata");
}

/// Whether a scene on the bridge is shown as it is.
pub open spec fn is_shown(shown: JView, native: JView) -> bool {
    &&& shown.get("resource"@) == native.get("id"@)
    &&& shown.get("name"@) == Some(
        JView::Str(called(native)),
    )
    &&& shown.get("dynamic_palette"@) == Some(
        JView::Bool(
            offered::palette_holds(native, "color"@) || offered::palette_holds(
                native,
                "effects"@,
            ),
        ),
    )
}

/// Whether a link is shown without its marks, with whether it still names a scene on this bridge
/// that carries them, and otherwise as it is.
pub open spec fn is_shown_link(shown: JView, inst: InstanceView, link: JView, i: int) -> bool {
    &&& shown.get("token"@) is None
    &&& shown.get("appdata"@) is None
    &&& forall|key: Seq<char>|
        key != "token"@ && key != "appdata"@ && key != "valid"@ ==> #[trigger] shown.get(key)
            == link.get(key)
    &&& match as_text(link.get("scene"@)) {
        Some(id) => {
            let scenes = cached(inst, "hue_scenes"@);
            &&& is_missing(scenes, id) ==> shown.get("valid"@) == Some(JView::Bool(false))
            &&& is_first(scenes, i, id) ==> shown.get("valid"@) == Some(
                JView::Bool(
                    is_marked(scenes[i], link) && as_text(link.get("bridge_id"@)) == as_text(
                        json::lookup(inst.scratch, "hue_bridge_id"@),
                    ),
                ),
            )
        },
        None => shown.get("valid"@) == Some(JView::Bool(false)),
    }
}

proof fn link_is_shown(inst: InstanceView, link: JView, i: int)
    requires
        link is Obj,
    ensures
        is_shown_link(scene::shown_link(inst, link), inst, link, i),
{
    broadcast use {json::lookup_put, json::lookup_without};

    status_keys();
    let scenes = cached(inst, "hue_scenes"@);
    match as_text(link.get("scene"@)) {
        Some(id) => {
            an_item_is_found_by_its_id(scenes, i, id, scenes.len());
            if 0 <= i < scenes.len() {
                marks_are_seen(scenes[i], link);
            }
        },
        None => {},
    }
}

/// The status of a scene says whether the bridge is known, whose the scene is, the borrowed scene
/// and the link as they are on the bridge, the link without its marks, what each light can play,
/// whether a write is begun, and the last problem; and asking for it changes nothing.
pub proof fn a_status_says_how_a_scene_stands(
    inst: InstanceView,
    request: SceneRequestView,
    i: int,
)
    requires
        is_bridge(inst),
        request.operation == SceneOperation::Status,
    ensures
        ({
            let (after, response) = scene::handled(inst, request);
            let status = response.status;
            let scenes = cached(inst, "hue_scenes"@);
            &&& after == inst
            &&& response.disposition == GroupDisposition::Handled
            &&& response.problem is None
            &&& response.calls.len() == 0
            &&& status.get("bridge_ready"@) == Some(
                JView::Bool(
                    as_text(json::lookup(inst.scratch, "hue_bridge_id"@)) is Some,
                ),
            )
            &&& status.get("ownership"@) == Some(
                JView::Str(
                    if request.ownership == SceneOwnership::Juno {
                        "juno"@
                    } else {
                        "borrowed"@
                    },
                ),
            )
            &&& match request.resource {
                Some(id) => {
                    &&& is_missing(scenes, id) ==> status.get("borrowed"@) == Some(JView::Null)
                    &&& is_first(scenes, i, id) ==> status.get("borrowed"@) is Some && is_shown(
                        status.get("borrowed"@)->0,
                        scenes[i],
                    )
                },
                None => status.get("borrowed"@) == Some(JView::Null),
            }
            &&& match link(inst, request.scene) {
                Some(l) => status.get("linked"@) is Some && (l is Obj ==> is_shown_link(
                    status.get("linked"@)->0,
                    inst,
                    l,
                    i,
                )),
                None => status.get("linked"@) == Some(JView::Null),
            }
            &&& status.get("pending"@) == Some(
                JView::Bool(json::lookup(inst.scratch, "hue_scene_pending"@) is Some),
            )
            &&& status.get("problem"@) == Some(
                match json::lookup(inst.scratch, "hue_scene_problem"@) {
                    Some(problem) => problem,
                    None => JView::Null,
                },
            )
            &&& status.get("effects_v2"@) matches Some(JView::Arr(shown)) && shown.len()
                == request.members.len() && (forall|k: int|
                0 <= k < shown.len() ==> (#[trigger] shown[k]).get("device"@) == Some(
                    JView::Num(NumberView::PosInt(request.members[k].device as u64)),
                ) && shown[k].get("values"@) == Some(
                    JView::Arr(
                        publish::effects_of(request.members[k]).map_values(
                            |effect: Seq<char>| JView::Str(effect),
                        ),
                    ),
                ))
        }),
{
    broadcast use json::lookup_put;

    status_keys();
    let scenes = cached(inst, "hue_scenes"@);
    match request.resource {
        Some(id) => {
            an_item_is_found_by_its_id(scenes, i, id, scenes.len());
        },
        None => {},
    }
    match link(inst, request.scene) {
        Some(l) => {
            if l is Obj {
                link_is_shown(inst, l, i);
            }
        },
        None => {},
    }
    let status = scene::handled(inst, request).1.status;
    let effects = request.members.map_values(
        |m: crate::host::SceneMemberView| scene::shown_effects(m),
    );
    assert(status.get("effects_v2"@) == Some(JView::Arr(effects)));
    assert forall|k: int| 0 <= k < effects.len() implies (#[trigger] effects[k]).get("device"@)
        == Some(JView::Num(NumberView::PosInt(request.members[k].device as u64)))
        && effects[k].get("values"@) == Some(
        JView::Arr(
            publish::effects_of(request.members[k]).map_values(
                |effect: Seq<char>| JView::Str(effect),
            ),
        ),
    ) by {
        assert(effects[k] == scene::shown_effects(request.members[k]));
        let a = publish::effects_of(request.members[k]).map_values(
            |s: Seq<char>| JView::Str(s),
        );
        let b = publish::effects_of(request.members[k]).map_values(
            |effect: Seq<char>| JView::Str(effect),
        );
        assert(a =~= b);
    }
}

/// Detaching a scene of this house forgets its link and the last problem, and nothing else; one
/// that is borrowed stays.
pub proof fn detaching_forgets_only_the_link(
    inst: InstanceView,
    request: SceneRequestView,
    key: Seq<char>,
)
    requires
        is_bridge(inst),
        request.operation == SceneOperation::Detach,
    ensures
        ({
            let outcome = scene::handled(inst, request);
            if request.ownership == SceneOwnership::Borrowed {
                is_refused(
                    inst,
                    outcome,
                    "borrowed Hue scenes remain attached and read-only"@,
                )
            } else {
                &&& outcome.1.disposition == GroupDisposition::Handled
                &&& outcome.1.problem is None
                &&& outcome.1.calls.len() == 0
                &&& link(outcome.0, request.scene) is None
                &&& json::lookup(outcome.0.scratch, "hue_scene_problem"@) is None
                &&& outcome.0.properties == inst.properties
                &&& key != "hue_scene_problem"@ && key != "hue_scene_links"@ ==> json::lookup(
                    outcome.0.scratch,
                    key,
                ) == json::lookup(inst.scratch, key)
            }
        }),
{
    broadcast use {json::lookup_put, json::lookup_without};

    reveal_strlit("hue_scene_problem");
    reveal_strlit("hue_scene_links");
    assert("hue_scene_problem"@.len() != "hue_scene_links"@.len());
}

} // verus!
