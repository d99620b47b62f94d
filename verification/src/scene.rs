//! Scenes on the bridge: recalling them, publishing to them, and following a write through.
//!
//! A recall is always one request. The bridge then runs the palette or effect itself; nothing here
//! is a timer, a retry loop or a stream of updates.

use vstd::prelude::*;
use vstd::string::StringExecFns;
use crate::borrowed;
use crate::bridge;
use crate::host;
use crate::host::{
    GroupDisposition, HostCall, HostCallView, Instance, InstanceView, SceneMember, SceneMemberView,
    SceneOperation, SceneOwnership, SceneRecall, SceneRequest, SceneRequestView, SceneResponse,
    SceneResponseView,
};
use crate::json;
use crate::json::{JView, Json, Members, Object};
use crate::publish;
use crate::role;
use crate::role::Role;
use crate::text;

verus! {

/// Where the bridge remembers its scenes.
pub const HUE_SCENES: &'static str = "hue_scenes";

/// Where the bridge remembers which of its scenes were published from here.
pub const HUE_SCENE_LINKS: &'static str = "hue_scene_links";

/// Where the bridge remembers the write that is in progress.
pub const HUE_SCENE_PENDING: &'static str = "hue_scene_pending";

/// Where the bridge remembers why the last write failed.
pub const HUE_SCENE_PROBLEM: &'static str = "hue_scene_problem";

/// The key that a scene is linked under.
pub fn scene_key(scene: u32) -> (r: String)
    ensures
        r@ == text::decimal(scene as nat),
{
    text::decimal_text(scene as u64)
}

/// The scene of the bridge with this id.
pub open spec fn scene_with_id(inst: InstanceView, id: Seq<char>) -> Option<JView> {
    bridge::cached_named(inst, HUE_SCENES@, id)
}

/// The scene of the bridge with this id.
pub fn cached_scene<'a>(inst: &'a Instance, id: &str) -> (r: Option<&'a Json>)
    ensures
        text::view_of(r) == scene_with_id(inst@, id@),
{
    bridge::cached_by_id(inst, HUE_SCENES, id)
}

/// The links of published scenes, where there are any.
pub open spec fn links_of(inst: InstanceView) -> Option<Members> {
    json::as_object(host::remembered(inst, HUE_SCENE_LINKS@))
}

/// The link of a published scene.
pub open spec fn link_of(inst: InstanceView, scene: u32) -> Option<JView> {
    match links_of(inst) {
        Some(links) => json::lookup(links, text::decimal(scene as nat)),
        None => None,
    }
}

/// The bridge with a scene linked.
pub open spec fn linked(inst: InstanceView, scene: u32, link: JView) -> InstanceView {
    let links = match links_of(inst) {
        Some(links) => links,
        None => seq![],
    };
    host::remember(
        inst,
        HUE_SCENE_LINKS@,
        JView::Obj(json::put(links, text::decimal(scene as nat), link)),
    )
}

/// The bridge without the link of a scene.
pub open spec fn unlinked(inst: InstanceView, scene: u32) -> InstanceView {
    match links_of(inst) {
        Some(links) => host::remember(
            inst,
            HUE_SCENE_LINKS@,
            JView::Obj(json::without(links, text::decimal(scene as nat))),
        ),
        None => inst,
    }
}

/// The link of a published scene.
pub fn scene_link(inst: &Instance, scene: u32) -> (r: Option<Json>)
    ensures
        text::view_of(r) == link_of(inst@, scene),
{
    match json::object_of(inst.scratch.get(HUE_SCENE_LINKS)) {
        Some(links) => match links.get(scene_key(scene).as_str()) {
            Some(link) => Some(link.clone()),
            None => None,
        },
        None => None,
    }
}

/// Links a published scene.
pub fn set_scene_link(inst: &mut Instance, scene: u32, link: Json)
    ensures
        final(inst)@ == linked(old(inst)@, scene, link@),
{
    let mut links = match json::object_of(inst.scratch.get(HUE_SCENE_LINKS)) {
        Some(links) => links.clone(),
        None => Object::new(),
    };
    links.insert(scene_key(scene).as_str(), link);
    inst.remember(HUE_SCENE_LINKS, Json::object(links));
}

/// Removes the link of a scene.
pub fn remove_scene_link(inst: &mut Instance, scene: u32)
    ensures
        final(inst)@ == unlinked(old(inst)@, scene),
{
    let links = match json::object_of(inst.scratch.get(HUE_SCENE_LINKS)) {
        Some(links) => {
            let mut copy = links.clone();
            copy.remove(scene_key(scene).as_str());
            Some(copy)
        },
        None => None,
    };
    match links {
        Some(links) => {
            inst.remember(HUE_SCENE_LINKS, Json::object(links));
        },
        None => {},
    }
}

/// A text of a link or of a pending write, or the empty one.
pub open spec fn text_in(v: JView, key: Seq<char>) -> Seq<char> {
    json::str_or(json::as_str(v.get(key)), ""@)
}

/// A text of a link or of a pending write, or the empty one.
pub fn text_at<'a>(v: &'a Json, key: &str) -> (r: &'a str)
    ensures
        r@ == text_in(v@, key@),
{
    match json::str_of(v.get(key)) {
        Some(s) => s,
        None => "",
    }
}

/// Whether a scene of the bridge carries these markers, both of them being there.
pub open spec fn carries(native: JView, token: Seq<char>, appdata: Seq<char>) -> bool {
    &&& token.len() > 0
    &&& appdata.len() > 0
    &&& text::holds(borrowed::scene_title(native), token)
    &&& json::as_str(native.get2("metadata"@, "appdata"@)) == Some(appdata)
}

/// Whether a scene of the bridge carries these markers, both of them being there.
pub fn has_markers(native: &Json, token: &str, appdata: &str) -> (r: bool)
    ensures
        r == carries(native@, token@, appdata@),
{
    if token.is_empty() || appdata.is_empty() {
        return false;
    }
    if !text::contains(borrowed::scene_name(native), token) {
        return false;
    }
    match json::str_of(native.get2("metadata", "appdata")) {
        Some(s) => text::same(s, appdata),
        None => false,
    }
}

/// The link of a scene that may be written to, or why it may not.
pub open spec fn owned_link(inst: InstanceView, scene: u32) -> Result<JView, Seq<char>> {
    match link_of(inst, scene) {
        None => Err("this Juno scene has not been published to Hue"@),
        Some(link) => if json::as_str(link.get("ownership"@)) != Some("juno"@) {
            Err("the Hue scene is not recorded as Juno-owned"@)
        } else if json::as_str(link.get("bridge_id"@)) != bridge::identity(inst) {
            Err("the saved scene belongs to a different Hue bridge"@)
        } else {
            match json::as_str(link.get("scene"@)) {
                None => Err("the saved Hue scene link is incomplete"@),
                Some(resource) => match scene_with_id(inst, resource) {
                    None => Err("the Juno-created Hue scene no longer exists"@),
                    Some(native) => if carries(
                        native,
                        text_in(link, "token"@),
                        text_in(link, "appdata"@),
                    ) {
                        Ok(link)
                    } else {
                        Err(
                            "the Juno ownership markers changed; refusing to modify this Hue scene"@,
                        )
                    },
                },
            }
        },
    }
}

/// Whether two optional texts are the same.
pub fn same_text(a: Option<&str>, b: Option<&str>) -> (r: bool)
    ensures
        r == (text::view_of(a) == text::view_of(b)),
{
    match (a, b) {
        (Some(x), Some(y)) => text::same(x, y),
        (None, None) => true,
        _ => false,
    }
}

/// The link of a scene that may be written to, or why it may not.
pub fn valid_owned_link(inst: &Instance, request: &SceneRequest) -> (r: Result<Json, String>)
    ensures
        match r {
            Ok(link) => owned_link(inst@, request.scene) == Ok::<JView, Seq<char>>(link@),
            Err(e) => owned_link(inst@, request.scene) == Err::<JView, Seq<char>>(e@),
        },
{
    let link = match scene_link(inst, request.scene) {
        Some(link) => link,
        None => {
            return Err("this Juno scene has not been published to Hue".to_string());
        },
    };
    if !same_text(json::str_of(link.get("ownership")), Some("juno")) {
        return Err("the Hue scene is not recorded as Juno-owned".to_string());
    }
    if !same_text(json::str_of(link.get("bridge_id")), bridge::bridge_id(inst)) {
        return Err("the saved scene belongs to a different Hue bridge".to_string());
    }
    let fine = match json::str_of(link.get("scene")) {
        Some(resource) => match cached_scene(inst, resource) {
            Some(native) => has_markers(native, text_at(&link, "token"), text_at(&link, "appdata")),
            None => {
                return Err("the Juno-created Hue scene no longer exists".to_string());
            },
        },
        None => {
            return Err("the saved Hue scene link is incomplete".to_string());
        },
    };
    if fine {
        Ok(link)
    } else {
        Err(
            "the Juno ownership markers changed; refusing to modify this Hue scene".to_string(),
        )
    }
}

/// A refusal.
pub open spec fn refusal(problem: Seq<char>, status: JView) -> SceneResponseView {
    SceneResponseView {
        disposition: GroupDisposition::Refused,
        problem: Some(problem),
        status,
        calls: seq![],
    }
}

/// A refusal.
pub fn refused(problem: &str, status: Json) -> (r: SceneResponse)
    ensures
        r@ == refusal(problem@, status@),
{
    let r = SceneResponse {
        disposition: GroupDisposition::Refused,
        problem: Some(problem.to_string()),
        status,
        calls: Vec::new(),
    };
    assert(r@.calls =~= seq![]);
    r
}

/// Whether the link of a scene still points at a scene of this bridge that carries its markers.
pub open spec fn link_valid(inst: InstanceView, link: JView) -> bool {
    match json::as_str(link.get("scene"@)) {
        Some(id) => match scene_with_id(inst, id) {
            Some(native) => carries(native, text_in(link, "token"@), text_in(link, "appdata"@))
                && json::as_str(link.get("bridge_id"@)) == bridge::identity(inst),
            None => false,
        },
        None => false,
    }
}

/// What is shown of a link: everything but its markers, and whether it is valid.
pub open spec fn shown_link(inst: InstanceView, link: JView) -> JView {
    match link {
        JView::Obj(members) => JView::Obj(
            json::put(
                json::without(json::without(members, "token"@), "appdata"@),
                "valid"@,
                JView::Bool(link_valid(inst, link)),
            ),
        ),
        _ => link,
    }
}

/// What is shown of a scene that lives on the bridge.
pub open spec fn shown_scene(scene: JView) -> JView {
    JView::Obj(
        json::put(
            json::put(
                json::one("resource"@, json::or_null(scene.get("id"@))),
                "name"@,
                JView::Str(borrowed::scene_title(scene)),
            ),
            "dynamic_palette"@,
            JView::Bool(borrowed::moves(scene)),
        ),
    )
}

/// What is shown of what a light can play.
pub open spec fn shown_effects(member: SceneMemberView) -> JView {
    JView::Obj(
        json::put(
            json::one("device"@, json::int_value(member.device as u64)),
            "values"@,
            json::string_array(publish::effects_of(member)),
        ),
    )
}

/// How an ownership is written.
pub open spec fn ownership_text(ownership: SceneOwnership) -> Seq<char> {
    match ownership {
        SceneOwnership::Borrowed => "borrowed"@,
        SceneOwnership::Juno => "juno"@,
    }
}

/// How things stand with a scene.
pub open spec fn status_of(inst: InstanceView, request: SceneRequestView) -> JView {
    let ready = json::one("bridge_ready"@, JView::Bool(bridge::identity(inst) is Some));
    let owned = json::put(
        ready,
        "ownership"@,
        JView::Str(ownership_text(request.ownership)),
    );
    let borrowed_scene = match request.resource {
        Some(id) => match scene_with_id(inst, id) {
            Some(scene) => shown_scene(scene),
            None => JView::Null,
        },
        None => JView::Null,
    };
    let link = match link_of(inst, request.scene) {
        Some(link) => shown_link(inst, link),
        None => JView::Null,
    };
    let effects = request.members.map_values(|m: SceneMemberView| shown_effects(m));
    let a = json::put(owned, "borrowed"@, borrowed_scene);
    let b = json::put(a, "linked"@, link);
    let c = json::put(b, "effects_v2"@, JView::Arr(effects));
    let d = json::put(
        c,
        "pending"@,
        JView::Bool(host::remembered(inst, HUE_SCENE_PENDING@) is Some),
    );
    JView::Obj(
        json::put(d, "problem"@, json::or_null(host::remembered(inst, HUE_SCENE_PROBLEM@))),
    )
}

fn show_link(inst: &Instance, link: Json) -> (r: Json)
    ensures
        r@ == shown_link(inst@, link@),
{
    let valid = match json::str_of(link.get("scene")) {
        Some(id) => match cached_scene(inst, id) {
            Some(native) => has_markers(
                native,
                text_at(&link, "token"),
                text_at(&link, "appdata"),
            ) && same_text(json::str_of(link.get("bridge_id")), bridge::bridge_id(inst)),
            None => false,
        },
        None => false,
    };
    broadcast use json::object_view;

    match link {
        Json::Obj(members) => {
            let mut shown = members;
            shown.remove("token");
            shown.remove("appdata");
            shown.insert("valid", Json::Bool(valid));
            Json::object(shown)
        },
        other => other,
    }
}

fn show_scene(scene: &Json) -> (r: Json)
    ensures
        r@ == shown_scene(scene@),
{
    Json::object(
        Object::new().with("resource", json::value_or_null(scene.get("id"))).with(
            "name",
            Json::text(borrowed::scene_name(scene)),
        ).with("dynamic_palette", Json::Bool(borrowed::has_dynamic_palette(scene))),
    )
}

fn show_effects(members: &Vec<SceneMember>) -> (r: Vec<Json>)
    ensures
        text::views(r@) == text::views(members@).map_values(
            |m: SceneMemberView| shown_effects(m),
        ),
{
    let mut out: Vec<Json> = Vec::new();
    let mut i: usize = 0;
    while i < members.len()
        invariant
            i <= members.len(),
            out.len() == i,
            forall|k: int| 0 <= k < i ==> out@[k]@ == shown_effects(members@[k]@),
        decreases members.len() - i,
    {
        let values = publish::capabilities(&members[i]);
        out.push(
            Json::object(
                Object::new().with("device", Json::integer(members[i].device as u64)).with(
                    "values",
                    Json::texts(&values),
                ),
            ),
        );
        i = i + 1;
    }
    assert(text::views(out@) =~= text::views(members@).map_values(
        |m: SceneMemberView| shown_effects(m),
    ));
    out
}

/// How things stand with a scene.
pub fn status(inst: &Instance, request: &SceneRequest) -> (r: Json)
    ensures
        r@ == status_of(inst@, request@),
{
    let link = match scene_link(inst, request.scene) {
        Some(link) => show_link(inst, link),
        None => Json::Null,
    };
    let borrowed_scene = match &request.resource {
        Some(id) => match cached_scene(inst, id.as_str()) {
            Some(scene) => show_scene(scene),
            None => Json::Null,
        },
        None => Json::Null,
    };
    let ownership = match request.ownership {
        SceneOwnership::Borrowed => Json::text("borrowed"),
        SceneOwnership::Juno => Json::text("juno"),
    };
    let pending = inst.scratch.contains_key(HUE_SCENE_PENDING);
    let problem = json::value_or_null(inst.scratch.get(HUE_SCENE_PROBLEM));
    Json::object(
        Object::new().with("bridge_ready", Json::Bool(bridge::bridge_id(inst).is_some())).with(
            "ownership",
            ownership,
        ).with("borrowed", borrowed_scene).with("linked", link).with(
            "effects_v2",
            Json::array(show_effects(&request.members)),
        ).with("pending", Json::Bool(pending)).with("problem", problem),
    )
}

/// An answer that goes with some calls.
pub open spec fn answer(
    disposition: GroupDisposition,
    status: JView,
    calls: Seq<HostCallView>,
) -> SceneResponseView {
    SceneResponseView { disposition, problem: None, status, calls }
}

fn answer_with(disposition: GroupDisposition, status: Json, calls: Vec<HostCall>) -> (r:
    SceneResponse)
    ensures
        r@ == answer(disposition, status@, text::views(calls@)),
{
    SceneResponse { disposition, problem: None, status, calls }
}

/// The scene of the bridge that a recall is for, or why there is none.
pub open spec fn recall_target(
    inst: InstanceView,
    request: SceneRequestView,
    mode: SceneRecall,
) -> Result<Seq<char>, Seq<char>> {
    match request.ownership {
        SceneOwnership::Borrowed => match request.resource {
            None => Err("the imported Hue scene has no resource id"@),
            Some(resource) => match scene_with_id(inst, resource) {
                None => Err("the imported Hue scene no longer exists"@),
                Some(native) => if mode == SceneRecall::Dynamic && !borrowed::moves(native) {
                    Err("this Hue scene has no dynamic palette"@)
                } else {
                    Ok(resource)
                },
            },
        },
        SceneOwnership::Juno => match owned_link(inst, request.scene) {
            Ok(link) => Ok(text_in(link, "scene"@)),
            Err(problem) => Err(problem),
        },
    }
}

/// The body of a recall.
pub open spec fn recall_body(mode: SceneRecall) -> JView {
    let action = match mode {
        SceneRecall::Static => "static"@,
        SceneRecall::Dynamic => "dynamic_palette"@,
    };
    JView::Obj(json::one("recall"@, JView::Obj(json::one("action"@, JView::Str(action)))))
}

/// The answer to a recall: one request to the bridge, or a refusal.
pub open spec fn recalled(
    inst: InstanceView,
    request: SceneRequestView,
    mode: SceneRecall,
) -> SceneResponseView {
    let current = status_of(inst, request);
    match recall_target(inst, request, mode) {
        Err(problem) => refusal(problem, current),
        Ok(resource) => match bridge::bridge_call(
            inst,
            "PUT"@,
            "/clip/v2/resource/scene/"@ + resource,
            Some(recall_body(mode)),
        ) {
            None => refusal("the Hue bridge connection is not configured"@, current),
            Some(call) => answer(GroupDisposition::Handled, current, seq![call]),
        },
    }
}

fn target_of(inst: &Instance, request: &SceneRequest, mode: SceneRecall) -> (r: Result<
    String,
    String,
>)
    ensures
        match r {
            Ok(id) => recall_target(inst@, request@, mode) == Ok::<Seq<char>, Seq<char>>(id@),
            Err(e) => recall_target(inst@, request@, mode) == Err::<Seq<char>, Seq<char>>(e@),
        },
{
    match request.ownership {
        SceneOwnership::Borrowed => match &request.resource {
            None => Err("the imported Hue scene has no resource id".to_string()),
            Some(resource) => match cached_scene(inst, resource.as_str()) {
                None => Err("the imported Hue scene no longer exists".to_string()),
                Some(native) => {
                    if mode == SceneRecall::Dynamic && !borrowed::has_dynamic_palette(native) {
                        Err("this Hue scene has no dynamic palette".to_string())
                    } else {
                        Ok(resource.clone())
                    }
                },
            },
        },
        SceneOwnership::Juno => match valid_owned_link(inst, request) {
            Ok(link) => Ok(text_at(&link, "scene").to_string()),
            Err(problem) => Err(problem),
        },
    }
}

fn recall(inst: &Instance, request: &SceneRequest, mode: SceneRecall) -> (r: SceneResponse)
    ensures
        r@ == recalled(inst@, request@, mode),
{
    let current = status(inst, request);
    let resource = match target_of(inst, request, mode) {
        Ok(id) => id,
        Err(problem) => {
            return refused(problem.as_str(), current);
        },
    };
    let action = match mode {
        SceneRecall::Static => "static",
        SceneRecall::Dynamic => "dynamic_palette",
    };
    let body = Json::object(
        Object::new().with(
            "recall",
            Json::object(Object::new().with("action", Json::text(action))),
        ),
    );
    let mut path = "/clip/v2/resource/scene/".to_string();
    path.append(resource.as_str());
    match bridge::bridge_http(inst, "PUT", path.as_str(), Some(body)) {
        Some(call) => answer_with(GroupDisposition::Handled, current, host::one_call(call)),
        None => refused("the Hue bridge connection is not configured", current),
    }
}

/// The answer to a request to forget that a scene was published, and the bridge after it.
pub open spec fn detached(inst: InstanceView, request: SceneRequestView) -> (
    InstanceView,
    SceneResponseView,
) {
    if request.ownership == SceneOwnership::Borrowed {
        (
            inst,
            refusal(
                "borrowed Hue scenes remain attached and read-only"@,
                status_of(inst, request),
            ),
        )
    } else {
        let after = host::forget(unlinked(inst, request.scene), HUE_SCENE_PROBLEM@);
        (after, answer(GroupDisposition::Handled, status_of(after, request), seq![]))
    }
}

/// The method, the path and the name of the write that publishes a scene: an update of one that is
/// there, or a new one.
pub open spec fn write_for(existing: Option<Seq<char>>) -> (Seq<char>, Seq<char>, Seq<char>) {
    match existing {
        Some(resource) => (
            "PUT"@,
            "/clip/v2/resource/scene/"@ + resource,
            "scene_update"@,
        ),
        None => ("POST"@, "/clip/v2/resource/scene"@, "scene_create"@),
    }
}

/// The method, the path and the name of the write that publishes a scene.
pub fn write_to(existing: Option<&str>) -> (r: (&'static str, String, &'static str))
    ensures
        (r.0@, r.1@, r.2@) == write_for(text::view_of(existing)),
{
    match existing {
        Some(resource) => {
            let mut path = "/clip/v2/resource/scene/".to_string();
            path.append(resource);
            ("PUT", path, "scene_update")
        },
        None => ("POST", "/clip/v2/resource/scene".to_string(), "scene_create"),
    }
}

/// A text, or null.
pub open spec fn text_or_null(s: Option<Seq<char>>) -> JView {
    match s {
        Some(s) => JView::Str(s),
        None => JView::Null,
    }
}

fn null_or_text(s: Option<&str>) -> (r: Json)
    ensures
        r@ == text_or_null(text::view_of(s)),
{
    match s {
        Some(s) => Json::text(s),
        None => Json::Null,
    }
}

/// What every record of a write in progress holds.
pub open spec fn pending_common(
    kind: Seq<char>,
    scene: u32,
    bridge_id: Seq<char>,
    light_ids: Seq<Seq<char>>,
    name: Seq<char>,
    token: Seq<char>,
    appdata: Seq<char>,
    body: JView,
) -> Members {
    let a = json::put(
        json::one("kind"@, JView::Str(kind)),
        "scene"@,
        json::int_value(scene as u64),
    );
    let b = json::put(a, "bridge_id"@, JView::Str(bridge_id));
    let c = json::put(b, "light_ids"@, json::string_array(light_ids));
    let d = json::put(c, "name"@, JView::Str(name));
    let e = json::put(d, "token"@, JView::Str(token));
    let f = json::put(e, "appdata"@, JView::Str(appdata));
    json::put(f, "body"@, body)
}

fn common_record(
    kind: &str,
    scene: u32,
    bridge_id: &str,
    light_ids: &Vec<String>,
    name: &str,
    token: &str,
    appdata: &str,
    body: Json,
) -> (r: Object)
    ensures
        r@ == pending_common(
            kind@,
            scene,
            bridge_id@,
            text::views(light_ids@),
            name@,
            token@,
            appdata@,
            body@,
        ),
{
    Object::new().with("kind", Json::text(kind)).with("scene", Json::integer(scene as u64)).with(
        "bridge_id",
        Json::text(bridge_id),
    ).with("light_ids", Json::texts(light_ids)).with("name", Json::text(name)).with(
        "token",
        Json::text(token),
    ).with("appdata", Json::text(appdata)).with("body", body)
}

/// An answer that says what is in progress.
pub open spec fn queued(kind: Seq<char>, call: HostCallView) -> SceneResponseView {
    answer(
        GroupDisposition::Queued,
        JView::Obj(json::one("pending"@, JView::Str(kind))),
        seq![call],
    )
}

fn queue(kind: &str, call: HostCall) -> (r: SceneResponse)
    ensures
        r@ == queued(kind@, call@),
{
    answer_with(
        GroupDisposition::Queued,
        Json::object(Object::new().with("pending", Json::text(kind))),
        host::one_call(call),
    )
}

/// What beginning to write a scene comes to: the request that writes it, and a record of the write
/// in progress; or a refusal that changes nothing.
pub open spec fn write_begun(
    inst: InstanceView,
    scene: u32,
    bridge_id: Seq<char>,
    light_ids: Seq<Seq<char>>,
    name: Seq<char>,
    token: Seq<char>,
    appdata: Seq<char>,
    group: JView,
    body: JView,
    existing: Option<Seq<char>>,
    current: JView,
) -> (InstanceView, SceneResponseView) {
    let (method, path, kind) = write_for(existing);
    match bridge::bridge_call(inst, method, path, Some(body)) {
        None => (inst, refusal("the Hue bridge connection is not configured"@, current)),
        Some(call) => {
            let common = pending_common(
                kind,
                scene,
                bridge_id,
                light_ids,
                name,
                token,
                appdata,
                body,
            );
            let record = json::put(
                json::put(common, "group"@, group),
                "resource"@,
                text_or_null(existing),
            );
            (
                host::remember(inst, HUE_SCENE_PENDING@, JView::Obj(record)),
                queued(kind, call),
            )
        },
    }
}

/// Begins to write a scene to a group.
pub fn begin_scene_write(
    inst: &mut Instance,
    scene: u32,
    bridge_id: &str,
    light_ids: &Vec<String>,
    name: &str,
    token: &str,
    appdata: &str,
    group: Json,
    body: Json,
    existing: Option<&str>,
    current_status: Json,
) -> (r: SceneResponse)
    ensures
        (final(inst)@, r@) == write_begun(
            old(inst)@,
            scene,
            bridge_id@,
            text::views(light_ids@),
            name@,
            token@,
            appdata@,
            group@,
            body@,
            text::view_of(existing),
            current_status@,
        ),
{
    let (method, path, kind) = write_to(existing);
    let call = match bridge::bridge_http(inst, method, path.as_str(), Some(body.clone())) {
        Some(call) => call,
        None => {
            return refused("the Hue bridge connection is not configured", current_status);
        },
    };
    let record = common_record(
        kind,
        scene,
        bridge_id,
        light_ids,
        name,
        token,
        appdata,
        body,
    ).with("group", group).with("resource", null_or_text(existing));
    inst.remember(HUE_SCENE_PENDING, Json::object(record));
    queue(kind, call)
}

/// The scene of the bridge that a scene is already published to, if any; or why it may not be
/// written to.
pub open spec fn existing_scene(inst: InstanceView, scene: u32) -> Result<
    Option<Seq<char>>,
    Seq<char>,
> {
    match link_of(inst, scene) {
        None => Ok(None),
        Some(_) => match owned_link(inst, scene) {
            Ok(link) => Ok(json::as_str(link.get("scene"@))),
            Err(problem) => Err(problem),
        },
    }
}

fn existing_of(inst: &Instance, request: &SceneRequest) -> (r: Result<Option<String>, String>)
    ensures
        match r {
            Ok(e) => existing_scene(inst@, request.scene) == Ok::<Option<Seq<char>>, Seq<char>>(
                text::view_of(e),
            ),
            Err(e) => existing_scene(inst@, request.scene) == Err::<Option<Seq<char>>, Seq<char>>(
                e@,
            ),
        },
{
    match scene_link(inst, request.scene) {
        None => Ok(None),
        Some(_) => match valid_owned_link(inst, request) {
            Ok(link) => match json::str_of(link.get("scene")) {
                Some(id) => Ok(Some(id.to_string())),
                None => Ok(None),
            },
            Err(problem) => Err(problem),
        },
    }
}

/// The body that creates the zone of a scene that no group has the lights of.
pub open spec fn zone_body(name: Seq<char>, light_ids: Seq<Seq<char>>) -> JView {
    let metadata = json::put(
        json::one("name"@, JView::Str(name)),
        "archetype"@,
        JView::Str("other"@),
    );
    JView::Obj(
        json::put(
            json::one("metadata"@, JView::Obj(metadata)),
            "children"@,
            JView::Arr(bridge::light_references(light_ids)),
        ),
    )
}

fn zone_body_of(name: &str, light_ids: &Vec<String>) -> (r: Json)
    ensures
        r@ == zone_body(name@, text::views(light_ids@)),
{
    let metadata = Object::new().with("name", Json::text(name)).with(
        "archetype",
        Json::text("other"),
    );
    Json::object(
        Object::new().with("metadata", Json::object(metadata)).with(
            "children",
            Json::array(bridge::zone_children(light_ids)),
        ),
    )
}

/// What beginning to create a zone for a scene comes to: the request that creates it, and a record
/// that holds the scene to be written once the zone is there.
pub open spec fn zone_begun(
    inst: InstanceView,
    request: SceneRequestView,
    light_ids: Seq<Seq<char>>,
    bridge_id: Seq<char>,
    existing: Option<Seq<char>>,
) -> (InstanceView, SceneResponseView) {
    let current = status_of(inst, request);
    let name = publish::published_name(request.scene, request.name);
    match bridge::bridge_call(
        inst,
        "POST"@,
        "/clip/v2/resource/zone"@,
        Some(zone_body(name, light_ids)),
    ) {
        None => (inst, refusal("the Hue bridge connection is not configured"@, current)),
        Some(call) => match publish::publish_problem(request) {
            Some(problem) => (inst, refusal(problem, current)),
            None => {
                let body = JView::Obj(
                    publish::body_of(request, bridge::reference("pending"@, "zone"@)),
                );
                let record = json::put(
                    pending_common(
                        "zone_create"@,
                        request.scene,
                        bridge_id,
                        light_ids,
                        name,
                        publish::token_of(request.scene),
                        publish::appdata_of(request.scene),
                        body,
                    ),
                    "existing"@,
                    text_or_null(existing),
                );
                (
                    host::remember(inst, HUE_SCENE_PENDING@, JView::Obj(record)),
                    queued("zone_create"@, call),
                )
            },
        },
    }
}

fn begin_zone(
    inst: &mut Instance,
    request: &SceneRequest,
    light_ids: &Vec<String>,
    bridge_id: &str,
    existing: Option<&str>,
) -> (r: SceneResponse)
    ensures
        (final(inst)@, r@) == zone_begun(
            old(inst)@,
            request@,
            text::views(light_ids@),
            bridge_id@,
            text::view_of(existing),
        ),
{
    let (name, token, appdata) = publish::owned_scene_name(request.scene, request.name.as_str());
    let call = match bridge::bridge_http(
        inst,
        "POST",
        "/clip/v2/resource/zone",
        Some(zone_body_of(name.as_str(), light_ids)),
    ) {
        Some(call) => call,
        None => {
            return refused("the Hue bridge connection is not configured", status(inst, request));
        },
    };
    // The verified zone takes the place of this group before the scene is written.
    let body = match publish::scene_body(request, bridge::refer("pending", "zone")) {
        Ok((body, _, _)) => body,
        Err(problem) => {
            return refused(problem.as_str(), status(inst, request));
        },
    };
    let record = common_record(
        "zone_create",
        request.scene,
        bridge_id,
        light_ids,
        name.as_str(),
        token.as_str(),
        appdata.as_str(),
        body,
    ).with("existing", null_or_text(existing));
    inst.remember(HUE_SCENE_PENDING, Json::object(record));
    queue("zone_create", call)
}

/// The answer to a request to publish a scene, and the bridge after it.
pub open spec fn synchronized(inst: InstanceView, request: SceneRequestView) -> (
    InstanceView,
    SceneResponseView,
) {
    let current = status_of(inst, request);
    if request.ownership == SceneOwnership::Borrowed {
        (
            inst,
            refusal(
                "existing Hue scenes are borrowed and can never be modified by Juno"@,
                current,
            ),
        )
    } else if host::remembered(inst, HUE_SCENE_PENDING@) is Some {
        (inst, refusal("another Hue scene write is still in progress"@, current))
    } else {
        match publish::member_lights(request) {
            Err(problem) => (inst, refusal(problem, current)),
            Ok(ids) => match bridge::identity(inst) {
                None => (inst, refusal("the Hue bridge identity has not loaded yet"@, current)),
                Some(bridge_id) => match existing_scene(inst, request.scene) {
                    Err(problem) => (inst, refusal(problem, current)),
                    Ok(existing) => match publish::group_with(inst, ids) {
                        Some(group) => match publish::publish_problem(request) {
                            Some(problem) => (inst, refusal(problem, current)),
                            None => write_begun(
                                inst,
                                request.scene,
                                bridge_id,
                                ids,
                                publish::published_name(request.scene, request.name),
                                publish::token_of(request.scene),
                                publish::appdata_of(request.scene),
                                group,
                                JView::Obj(publish::body_of(request, group)),
                                existing,
                                current,
                            ),
                        },
                        None => zone_begun(inst, request, ids, bridge_id, existing),
                    },
                },
            },
        }
    }
}

fn opt_str<'a>(s: &'a Option<String>) -> (r: Option<&'a str>)
    ensures
        text::view_of(r) == text::view_of(*s),
{
    match s {
        Some(s) => Some(s.as_str()),
        None => None,
    }
}

fn synchronize(inst: &mut Instance, request: &SceneRequest) -> (r: SceneResponse)
    ensures
        (final(inst)@, r@) == synchronized(old(inst)@, request@),
{
    let current = status(inst, request);
    if request.ownership == SceneOwnership::Borrowed {
        return refused(
            "existing Hue scenes are borrowed and can never be modified by Juno",
            current,
        );
    }
    if inst.scratch.contains_key(HUE_SCENE_PENDING) {
        return refused("another Hue scene write is still in progress", current);
    }
    let light_ids = match publish::member_light_ids(request) {
        Ok(ids) => ids,
        Err(problem) => {
            return refused(problem.as_str(), current);
        },
    };
    let bridge_id = match bridge::bridge_id(inst) {
        Some(id) => id.to_string(),
        None => {
            return refused("the Hue bridge identity has not loaded yet", current);
        },
    };
    let existing = match existing_of(inst, request) {
        Ok(e) => e,
        Err(problem) => {
            return refused(problem.as_str(), current);
        },
    };
    match publish::exact_group(inst, &light_ids) {
        Some(group) => {
            let (name, token, appdata) = publish::owned_scene_name(
                request.scene,
                request.name.as_str(),
            );
            let body = match publish::scene_body(request, group.clone()) {
                Ok((body, _, _)) => body,
                Err(problem) => {
                    return refused(problem.as_str(), current);
                },
            };
            begin_scene_write(
                inst,
                request.scene,
                bridge_id.as_str(),
                &light_ids,
                name.as_str(),
                token.as_str(),
                appdata.as_str(),
                group,
                body,
                opt_str(&existing),
                current,
            )
        },
        // A scene belongs to one room or zone. When this one spans existing groups, it gets a zone
        // of its own instead of an edit to somebody's.
        None => begin_zone(inst, request, &light_ids, bridge_id.as_str(), opt_str(&existing)),
    }
}

/// The answer to a request about a scene, and the bridge after it.
pub open spec fn handled(inst: InstanceView, request: SceneRequestView) -> (
    InstanceView,
    SceneResponseView,
) {
    if role::role_of(inst) != Role::Bridge {
        (inst, refusal("Hue native scenes must run on the bridge"@, JView::Null))
    } else {
        match request.operation {
            SceneOperation::Status => (
                inst,
                answer(GroupDisposition::Handled, status_of(inst, request), seq![]),
            ),
            SceneOperation::Recall { mode } => (inst, recalled(inst, request, mode)),
            SceneOperation::Detach => detached(inst, request),
            SceneOperation::Synchronize => synchronized(inst, request),
        }
    }
}

/// Answers a request about a scene.
pub fn handle(inst: &mut Instance, request: &SceneRequest) -> (r: SceneResponse)
    ensures
        (final(inst)@, r@) == handled(old(inst)@, request@),
{
    if Role::of(inst) != Role::Bridge {
        return refused("Hue native scenes must run on the bridge", Json::Null);
    }
    match request.operation {
        SceneOperation::Status => answer_with(
            GroupDisposition::Handled,
            status(inst, request),
            host::no_calls(),
        ),
        SceneOperation::Recall { mode } => recall(inst, request, mode),
        SceneOperation::Detach => {
            if request.ownership == SceneOwnership::Borrowed {
                return refused(
                    "borrowed Hue scenes remain attached and read-only",
                    status(inst, request),
                );
            }
            remove_scene_link(inst, request.scene);
            inst.forget(HUE_SCENE_PROBLEM);
            answer_with(GroupDisposition::Handled, status(inst, request), host::no_calls())
        },
        SceneOperation::Synchronize => synchronize(inst, request),
    }
}

} // verus!
