//! Following a scene through once its write has begun: what the bridge answered, and what to do
//! next.

use vstd::prelude::*;
use vstd::string::StringExecFns;
use crate::borrowed;
use crate::bridge;
use crate::host;
use crate::host::{HostCall, HostCallView, Instance, InstanceView};
use crate::json;
use crate::json::{JView, Json, Members, Object};
use crate::publish;
use crate::scene;
use crate::text;

verus! {

/// The method that an answer is to.
pub open spec fn method_of(args: Members) -> Seq<char> {
    json::str_or(json::as_str(json::lookup(args, "method"@)), ""@)
}

/// The address that an answer is from.
pub open spec fn url_of(args: Members) -> Seq<char> {
    json::str_or(json::as_str(json::lookup(args, "url"@)), ""@)
}

/// The status of an answer; success where it has none.
pub open spec fn status_code(args: Members) -> u64 {
    match json::as_u64(json::lookup(args, "status"@)) {
        Some(n) => n,
        None => 200,
    }
}

/// The resources in an answer.
pub open spec fn answer_data(args: Members) -> Option<Seq<JView>> {
    match json::lookup(args, "body"@) {
        Some(body) => json::as_array(body.get("data"@)),
        None => None,
    }
}

fn method_in(args: &Object) -> (r: &str)
    ensures
        r@ == method_of(args@),
{
    match json::str_of(args.get("method")) {
        Some(s) => s,
        None => "",
    }
}

fn url_in(args: &Object) -> (r: &str)
    ensures
        r@ == url_of(args@),
{
    match json::str_of(args.get("url")) {
        Some(s) => s,
        None => "",
    }
}

fn status_in(args: &Object) -> (r: u64)
    ensures
        r == status_code(args@),
{
    match json::u64_of(args.get("status")) {
        Some(n) => n,
        None => 200,
    }
}

/// The resources in an answer.
pub fn data_in(args: &Object) -> (r: Option<&Vec<Json>>)
    ensures
        match r {
            Some(items) => answer_data(args@) == Some(text::views(items@)),
            None => answer_data(args@) is None,
        },
{
    match args.get("body") {
        Some(body) => json::array_of(body.get("data")),
        None => None,
    }
}

/// Whether a resource in an answer is of a kind.
pub open spec fn is_kind(resource: JView, kind: Seq<char>) -> bool {
    json::as_str(resource.get("rtype"@)) == Some(kind) || json::as_str(resource.get("type"@))
        == Some(kind)
}

/// The first of the first `n` resources that is of a kind.
pub open spec fn first_of_kind(data: Seq<JView>, n: nat, kind: Seq<char>) -> Option<JView>
    decreases n,
{
    if n == 0 {
        None
    } else {
        match first_of_kind(data, (n - 1) as nat, kind) {
            Some(v) => Some(v),
            None => if is_kind(data[n - 1], kind) {
                Some(data[n - 1])
            } else {
                None
            },
        }
    }
}

proof fn first_of_kind_stays(data: Seq<JView>, n: nat, m: nat, kind: Seq<char>)
    requires
        n <= m,
        first_of_kind(data, n, kind) is Some,
    ensures
        first_of_kind(data, m, kind) == first_of_kind(data, n, kind),
    decreases m,
{
    if n < m {
        first_of_kind_stays(data, n, (m - 1) as nat, kind);
    }
}

/// The id of the resource of a kind that an answer says was created.
pub open spec fn created_id(args: Members, kind: Seq<char>) -> Option<Seq<char>> {
    let data = json::list_or_empty(answer_data(args));
    match first_of_kind(data, data.len(), kind) {
        Some(resource) => match resource.get("rid"@) {
            Some(rid) => json::as_str(Some(rid)),
            None => json::as_str(resource.get("id"@)),
        },
        None => None,
    }
}

fn created(args: &Object, kind: &str) -> (r: Option<String>)
    ensures
        text::view_of(r) == created_id(args@, kind@),
{
    let data = match data_in(args) {
        Some(data) => data,
        None => {
            return None;
        },
    };
    let mut i: usize = 0;
    while i < data.len()
        invariant
            i <= data.len(),
            answer_data(args@) == Some(text::views(data@)),
            first_of_kind(text::views(data@), i as nat, kind@) is None,
        decreases data.len() - i,
    {
        let resource = &data[i];
        let by_rtype = scene::same_text(json::str_of(resource.get("rtype")), Some(kind));
        let by_type = scene::same_text(json::str_of(resource.get("type")), Some(kind));
        if by_rtype || by_type {
            proof {
                first_of_kind_stays(text::views(data@), (i + 1) as nat, data@.len(), kind@);
            }
            let id = match resource.get("rid") {
                Some(rid) => json::str_of(Some(rid)),
                None => json::str_of(resource.get("id")),
            };
            return match id {
                Some(s) => Some(s.to_string()),
                None => None,
            };
        }
        i = i + 1;
    }
    None
}

/// The bridge after a write has failed: it remembers why, and nothing is in progress.
pub open spec fn write_failed(inst: InstanceView, problem: Seq<char>) -> InstanceView {
    host::forget(
        host::remember(inst, scene::HUE_SCENE_PROBLEM@, JView::Str(problem)),
        scene::HUE_SCENE_PENDING@,
    )
}

fn fail_write(inst: &mut Instance, problem: &str)
    ensures
        final(inst)@ == write_failed(old(inst)@, problem@),
{
    inst.remember(scene::HUE_SCENE_PROBLEM, Json::text(problem));
    inst.forget(scene::HUE_SCENE_PENDING);
}

/// What the bridge remembers about its zones, its scenes and a write it remembers under different
/// keys.
pub proof fn keys_differ()
    ensures
        scene::HUE_SCENE_PENDING@ != bridge::HUE_ZONES@,
        scene::HUE_SCENE_PENDING@ != scene::HUE_SCENES@,
        scene::HUE_SCENE_PENDING@ != scene::HUE_SCENE_LINKS@,
        scene::HUE_SCENE_PENDING@ != scene::HUE_SCENE_PROBLEM@,
        scene::HUE_SCENE_LINKS@ != bridge::HUE_ZONES@,
        scene::HUE_SCENE_LINKS@ != scene::HUE_SCENES@,
        scene::HUE_SCENE_LINKS@ != scene::HUE_SCENE_PROBLEM@,
{
    reveal_strlit("hue_scene_pending");
    reveal_strlit("hue_zones");
    reveal_strlit("hue_scenes");
    reveal_strlit("hue_scene_links");
    reveal_strlit("hue_scene_problem");
    assert(bridge::HUE_ZONES@.len() == 9);
    assert(scene::HUE_SCENES@.len() == 10);
    assert(scene::HUE_SCENE_LINKS@.len() == 15);
    assert(scene::HUE_SCENE_PENDING@.len() == 17);
    assert(scene::HUE_SCENE_PROBLEM@.len() == 17);
    assert(scene::HUE_SCENE_PENDING@[11] == 'e');
    assert(scene::HUE_SCENE_PROBLEM@[11] == 'r');
}

/// The write in progress.
pub open spec fn pending(inst: InstanceView) -> Option<JView> {
    host::remembered(inst, scene::HUE_SCENE_PENDING@)
}

/// Whether the zone of a scene is being created.
pub fn zone_write_pending(inst: &Instance) -> (r: bool)
    ensures
        r == (pending(inst@) matches Some(p) && json::as_str(p.get("kind"@)) == Some(
            "zone_create"@,
        )),
{
    match inst.scratch.get(scene::HUE_SCENE_PENDING) {
        Some(p) => scene::same_text(json::str_of(p.get("kind")), Some("zone_create")),
        None => false,
    }
}

/// The strings of a list that holds nothing else; none of any other value.
pub open spec fn string_list(v: Option<JView>) -> Seq<Seq<char>> {
    match json::as_array(v) {
        Some(items) => if forall|i: int| 0 <= i < items.len() ==> #[trigger] items[i] is Str {
            json::strings(items)
        } else {
            seq![]
        },
        None => seq![],
    }
}

fn strings_only(v: Option<&Json>) -> (r: Vec<String>)
    ensures
        text::views(r@) == string_list(text::view_of(v)),
{
    let none: Vec<String> = Vec::new();
    assert(text::views(none@) =~= seq![]);
    match json::array_of(v) {
        Some(items) => {
            let mut i: usize = 0;
            while i < items.len()
                invariant
                    i <= items.len(),
                    json::as_array(text::view_of(v)) == Some(text::views(items@)),
                    text::views(none@) == Seq::<Seq<char>>::empty(),
                    forall|k: int| 0 <= k < i ==> #[trigger] text::views(items@)[k] is Str,
                decreases items.len() - i,
            {
                match &items[i] {
                    Json::Str(_) => {},
                    _ => {
                        assert(!(text::views(items@)[i as int] is Str));
                        return none;
                    },
                }
                i = i + 1;
            }
            json::strings_of(v)
        },
        None => none,
    }
}

/// Whether a zone is the one that was asked for: it has the lights, and its name the marker.
pub open spec fn zone_matches(zone: JView, ids: Seq<Seq<char>>, token: Seq<char>) -> bool {
    &&& bridge::children_of(zone, "light"@) == ids
    &&& token.len() > 0
    &&& text::holds(bridge::zone_title(zone), token)
}

/// The write whose zone has been read back as it was asked for, with the id of that zone.
pub open spec fn zone_ready(inst: InstanceView) -> Option<(Members, Seq<char>)> {
    match pending(inst) {
        Some(JView::Obj(record)) => match json::as_str(json::lookup(record, "zone"@)) {
            Some(id) => match bridge::cached_named(inst, bridge::HUE_ZONES@, id) {
                Some(zone) => if zone_matches(
                    zone,
                    string_list(json::lookup(record, "light_ids"@)),
                    scene::text_in(JView::Obj(record), "token"@),
                ) {
                    Some((record, id))
                } else {
                    None
                },
                None => None,
            },
            None => None,
        },
        _ => None,
    }
}

/// Whether a group can be placed in the body of a record: the body, where there is one, is an
/// object.
pub open spec fn takes_group(record: Members) -> bool {
    match json::lookup(record, "body"@) {
        Some(body) => body is Obj || body is Null,
        None => true,
    }
}

/// Whether the scene of a write can be placed in its zone, where that comes next.
pub open spec fn can_continue(inst: InstanceView) -> bool {
    match zone_ready(inst) {
        Some((record, _)) => takes_group(record),
        None => true,
    }
}

/// Whether the scene of a write can be placed in its zone, where that comes next after an answer.
pub open spec fn can_answer(inst: InstanceView, args: Members) -> bool {
    let reads = status_code(args) < 400 && !text::same_letters(method_of(args), "POST"@)
        && text::same_letters(method_of(args), "GET"@);
    match answer_data(args) {
        Some(data) => reads ==> can_continue(
            host::remember(inst, bridge::HUE_ZONES@, JView::Arr(data)),
        ),
        None => true,
    }
}

/// The record of a write once its zone is there: it holds the zone as the group, and is the write
/// of the scene.
pub open spec fn zone_record(record: Members, group: JView) -> Members {
    let grouped = json::put(record, "group"@, group);
    let body = match json::as_object(json::lookup(record, "body"@)) {
        Some(body) => body,
        None => seq![],
    };
    let placed = json::put(grouped, "body"@, JView::Obj(json::put(body, "group"@, group)));
    json::put(placed, "kind"@, JView::Str(scene::write_for(update_of(record)).2))
}

/// The scene of the bridge that a record says is to be updated.
pub open spec fn update_of(record: Members) -> Option<Seq<char>> {
    match json::as_str(json::lookup(record, "existing"@)) {
        Some(id) => if id.len() > 0 {
            Some(id)
        } else {
            None
        },
        None => None,
    }
}

/// What comes next once the zones have been read: the scene is written to the zone that was
/// created for it, or the write has failed.
pub open spec fn zone_continued(inst: InstanceView) -> (InstanceView, Seq<HostCallView>) {
    match pending(inst) {
        Some(JView::Obj(record)) => match json::as_str(json::lookup(record, "zone"@)) {
            None => (inst, seq![]),
            Some(id) => match bridge::cached_named(inst, bridge::HUE_ZONES@, id) {
                None => (
                    write_failed(
                        inst,
                        "Hue did not return the scene zone after creating it"@,
                    ),
                    seq![],
                ),
                Some(zone) => if zone_matches(
                    zone,
                    string_list(json::lookup(record, "light_ids"@)),
                    scene::text_in(JView::Obj(record), "token"@),
                ) {
                    let next = zone_record(record, bridge::reference(id, "zone"@));
                    let after = host::remember(
                        inst,
                        scene::HUE_SCENE_PENDING@,
                        JView::Obj(next),
                    );
                    let (method, path, _) = scene::write_for(update_of(record));
                    (
                        after,
                        host::call_list(
                            bridge::bridge_call(after, method, path, zone_scene_body(record, id)),
                        ),
                    )
                } else {
                    (
                        write_failed(
                            inst,
                            "Hue returned a scene zone that did not match Juno's requested name and lights"@,
                        ),
                        seq![],
                    )
                },
            },
        },
        _ => (inst, seq![]),
    }
}

/// The body of the scene that is written to a zone.
pub open spec fn zone_scene_body(record: Members, zone: Seq<char>) -> Option<JView> {
    let body = match json::as_object(json::lookup(record, "body"@)) {
        Some(body) => body,
        None => seq![],
    };
    Some(JView::Obj(json::put(body, "group"@, bridge::reference(zone, "zone"@))))
}

fn is_asked_for(zone: &Json, record: &Object) -> (r: bool)
    ensures
        r == zone_matches(
            zone@,
            string_list(json::lookup(record@, "light_ids"@)),
            scene::text_in(JView::Obj(record@), "token"@),
        ),
{
    let expected = strings_only(record.get("light_ids"));
    let token = match json::str_of(record.get("token")) {
        Some(s) => s,
        None => "",
    };
    publish::same_list(&bridge::zone_light_ids(zone), &expected) && !token.is_empty()
        && text::contains(bridge::zone_name(zone), token)
}

fn may_continue(inst: &Instance) -> (r: bool)
    ensures
        r == can_continue(inst@),
{
    broadcast use {json::array_view, json::object_view};

    let record = match json::object_of(inst.scratch.get(scene::HUE_SCENE_PENDING)) {
        Some(record) => record,
        None => {
            return true;
        },
    };
    let ready = match json::str_of(record.get("zone")) {
        Some(id) => match bridge::cached_zone(inst, id) {
            Some(zone) => is_asked_for(zone, record),
            None => false,
        },
        None => false,
    };
    if !ready {
        return true;
    }
    match record.get("body") {
        Some(Json::Obj(_)) | Some(Json::Null) | None => true,
        Some(_) => false,
    }
}

/// Whether an answer about zones can be taken in.
pub fn is_answerable(inst: &Instance, args: &Object) -> (r: bool)
    ensures
        r == can_answer(inst@, args@),
{
    let reads = status_in(args) < 400 && !text::same_ignoring_case(method_in(args), "POST")
        && text::same_ignoring_case(method_in(args), "GET");
    match data_in(args) {
        Some(data) => {
            if !reads {
                return true;
            }
            let mut copy = Instance {
                properties: inst.properties.clone(),
                scratch: inst.scratch.clone(),
            };
            bridge::cache_zone_inventory(&mut copy, data);
            may_continue(&copy)
        },
        None => true,
    }
}

/// Goes on once the zones have been read.
pub fn continue_after_zone(inst: &mut Instance) -> (r: Vec<HostCall>)
    requires
        can_continue(old(inst)@),
    ensures
        (final(inst)@, text::views(r@)) == zone_continued(old(inst)@),
{
    let record = match json::object_of(inst.scratch.get(scene::HUE_SCENE_PENDING)) {
        Some(record) => record.clone(),
        None => {
            return host::no_calls();
        },
    };
    let id = match json::str_of(record.get("zone")) {
        Some(id) => id.to_string(),
        None => {
            return host::no_calls();
        },
    };
    let matches = match bridge::cached_zone(inst, id.as_str()) {
        Some(zone) => is_asked_for(zone, &record),
        None => {
            fail_write(inst, "Hue did not return the scene zone after creating it");
            return host::no_calls();
        },
    };
    if !matches {
        fail_write(
            inst,
            "Hue returned a scene zone that did not match Juno's requested name and lights",
        );
        return host::no_calls();
    }
    let existing = match json::str_of(record.get("existing")) {
        Some(s) => if s.is_empty() {
            None
        } else {
            Some(s)
        },
        None => None,
    };
    let (method, path, kind) = scene::write_to(existing);
    let mut body = match json::object_of(record.get("body")) {
        Some(body) => body.clone(),
        None => Object::new(),
    };
    body.insert("group", bridge::refer(id.as_str(), "zone"));
    let body = Json::object(body);
    let next = record.clone().with("group", bridge::refer(id.as_str(), "zone")).with(
        "body",
        body.clone(),
    ).with("kind", Json::text(kind));
    inst.remember(scene::HUE_SCENE_PENDING, Json::object(next));
    host::list_call(bridge::bridge_http(inst, method, path.as_str(), Some(body)))
}

/// What an answer about zones comes to while the zone of a scene is being created.
pub open spec fn zone_answered(inst: InstanceView, args: Members) -> (
    InstanceView,
    Seq<HostCallView>,
) {
    if status_code(args) >= 400 {
        (
            write_failed(
                inst,
                "Hue rejected the scene zone write with HTTP "@ + text::decimal(
                    status_code(args) as nat,
                ),
            ),
            seq![],
        )
    } else if text::same_letters(method_of(args), "POST"@) {
        match (created_id(args, "zone"@), pending(inst)) {
            (Some(zone), Some(JView::Obj(record))) => {
                let after = host::remember(
                    inst,
                    scene::HUE_SCENE_PENDING@,
                    JView::Obj(json::put(record, "zone"@, JView::Str(zone))),
                );
                (
                    after,
                    host::call_list(
                        bridge::bridge_call(after, "GET"@, "/clip/v2/resource/zone"@, None),
                    ),
                )
            },
            _ => (
                write_failed(inst, "Hue did not identify the scene zone it created"@),
                seq![],
            ),
        }
    } else if text::same_letters(method_of(args), "GET"@) {
        match answer_data(args) {
            Some(data) => zone_continued(
                host::remember(inst, bridge::HUE_ZONES@, JView::Arr(data)),
            ),
            None => (inst, seq![]),
        }
    } else {
        (inst, seq![])
    }
}

fn rejected(what: &str, status: u64) -> (r: String)
    ensures
        r@ == what@ + text::decimal(status as nat),
{
    let mut r = what.to_string();
    let digits = text::decimal_text(status);
    r.append(digits.as_str());
    r
}

/// Takes an answer about zones while the zone of a scene is being created.
pub fn on_zone_response(inst: &mut Instance, args: &Object) -> (r: Vec<HostCall>)
    requires
        can_answer(old(inst)@, args@),
    ensures
        (final(inst)@, text::views(r@)) == zone_answered(old(inst)@, args@),
{
    let status = status_in(args);
    if status >= 400 {
        let problem = rejected("Hue rejected the scene zone write with HTTP ", status);
        fail_write(inst, problem.as_str());
        return host::no_calls();
    }
    if text::same_ignoring_case(method_in(args), "POST") {
        let record = match json::object_of(inst.scratch.get(scene::HUE_SCENE_PENDING)) {
            Some(record) => Some(record.clone()),
            None => None,
        };
        return match (created(args, "zone"), record) {
            (Some(zone), Some(record)) => {
                inst.remember(
                    scene::HUE_SCENE_PENDING,
                    Json::object(record.with("zone", Json::Str(zone))),
                );
                host::list_call(
                    bridge::bridge_http(inst, "GET", "/clip/v2/resource/zone", None),
                )
            },
            _ => {
                fail_write(inst, "Hue did not identify the scene zone it created");
                host::no_calls()
            },
        };
    }
    if text::same_ignoring_case(method_in(args), "GET") {
        match data_in(args) {
            Some(data) => {
                bridge::cache_zone_inventory(inst, data);
                return continue_after_zone(inst);
            },
            None => {},
        }
    }
    host::no_calls()
}

/// The link that a finished write leaves.
pub open spec fn finished_link(record: JView, resource: Seq<char>, native: JView) -> JView {
    let a = json::put(
        json::one("ownership"@, JView::Str("juno"@)),
        "bridge_id"@,
        json::or_null(record.get("bridge_id"@)),
    );
    let b = json::put(a, "scene"@, JView::Str(resource));
    let c = json::put(b, "name"@, JView::Str(borrowed::scene_title(native)));
    let d = json::put(c, "token"@, JView::Str(scene::text_in(record, "token"@)));
    let e = json::put(d, "appdata"@, JView::Str(scene::text_in(record, "appdata"@)));
    let f = json::put(e, "group"@, json::or_null(record.get("group"@)));
    JView::Obj(json::put(f, "light_ids"@, json::or_null(record.get("light_ids"@))))
}

/// The bridge once its scenes have been read: a write in progress is finished where its scene is
/// there with its markers, and has failed otherwise.
pub open spec fn finalized(inst: InstanceView) -> InstanceView {
    match pending(inst) {
        None => inst,
        Some(record) => match json::as_str(record.get("resource"@)) {
            None => inst,
            Some(resource) => match scene::scene_with_id(inst, resource) {
                None => write_failed(inst, "Hue did not return the scene after writing it"@),
                Some(native) => if !scene::carries(
                    native,
                    scene::text_in(record, "token"@),
                    scene::text_in(record, "appdata"@),
                ) {
                    write_failed(inst, "Hue returned a scene without Juno's ownership markers"@)
                } else {
                    match json::as_u64(record.get("scene"@)) {
                        None => host::forget(inst, scene::HUE_SCENE_PENDING@),
                        Some(n) => {
                            let done = scene::linked(
                                inst,
                                (n % 0x1_0000_0000) as u32,
                                finished_link(record, resource, native),
                            );
                            host::forget(
                                host::forget(done, scene::HUE_SCENE_PENDING@),
                                scene::HUE_SCENE_PROBLEM@,
                            )
                        },
                    }
                },
            },
        },
    }
}

/// Finishes a write in progress once the scenes have been read.
pub fn finalize_pending(inst: &mut Instance)
    ensures
        final(inst)@ == finalized(old(inst)@),
{
    let record = match inst.scratch.get(scene::HUE_SCENE_PENDING) {
        Some(record) => record.clone(),
        None => {
            return;
        },
    };
    let resource = match json::str_of(record.get("resource")) {
        Some(s) => s,
        None => {
            return;
        },
    };
    let token = scene::text_at(&record, "token");
    let appdata = scene::text_at(&record, "appdata");
    let (fine, name) = match scene::cached_scene(inst, resource) {
        Some(native) => (
            scene::has_markers(native, token, appdata),
            borrowed::scene_name(native).to_string(),
        ),
        None => {
            fail_write(inst, "Hue did not return the scene after writing it");
            return;
        },
    };
    if !fine {
        fail_write(inst, "Hue returned a scene without Juno's ownership markers");
        return;
    }
    match json::u64_of(record.get("scene")) {
        None => {
            inst.forget(scene::HUE_SCENE_PENDING);
        },
        Some(n) => {
            let link = Object::new().with("ownership", Json::text("juno")).with(
                "bridge_id",
                json::value_or_null(record.get("bridge_id")),
            ).with("scene", Json::text(resource)).with("name", Json::Str(name)).with(
                "token",
                Json::text(token),
            ).with("appdata", Json::text(appdata)).with(
                "group",
                json::value_or_null(record.get("group")),
            ).with("light_ids", json::value_or_null(record.get("light_ids")));
            scene::set_scene_link(inst, (n % 0x1_0000_0000) as u32, Json::object(link));
            inst.forget(scene::HUE_SCENE_PENDING);
            inst.forget(scene::HUE_SCENE_PROBLEM);
        },
    }
}

/// The offer of the scenes that live on the bridge; none where there are none.
pub open spec fn scenes_offer(data: Seq<JView>) -> Seq<HostCallView> {
    let scenes = borrowed::snapshots(data, data.len());
    if scenes.len() == 0 {
        seq![]
    } else {
        seq![HostCallView::BorrowedScenes { scenes }]
    }
}

/// What an answer about lights, rooms or scenes comes to: what the bridge remembers after it, and
/// what to do next; nothing where the answer is about something else.
pub open spec fn collection_answered(inst: InstanceView, args: Members) -> (
    InstanceView,
    Option<Seq<HostCallView>>,
) {
    let get = text::same_letters(method_of(args), "GET"@);
    let next = host::call_list(
        bridge::bridge_call(inst, "GET"@, "/clip/v2/resource/scene"@, None),
    );
    if get && text::ends(url_of(args), "/clip/v2/resource/light"@) {
        match answer_data(args) {
            Some(data) => (
                host::remember(inst, publish::HUE_LIGHTS@, JView::Arr(data)),
                Some(seq![]),
            ),
            None => (inst, Some(seq![])),
        }
    } else if get && text::ends(url_of(args), "/clip/v2/resource/room"@) {
        match answer_data(args) {
            Some(data) => (
                host::remember(inst, publish::HUE_ROOMS@, JView::Arr(data)),
                Some(seq![]),
            ),
            None => (inst, Some(seq![])),
        }
    } else if !text::holds(url_of(args), "/clip/v2/resource/scene"@) {
        (inst, None)
    } else if status_code(args) >= 400 {
        if pending(inst) is Some {
            (
                write_failed(
                    inst,
                    "Hue rejected the scene write with HTTP "@ + text::decimal(
                        status_code(args) as nat,
                    ),
                ),
                Some(seq![]),
            )
        } else {
            (inst, Some(seq![]))
        }
    } else if text::same_letters(method_of(args), "POST"@) {
        match (created_id(args, "scene"@), pending(inst)) {
            (Some(id), Some(JView::Obj(record))) => {
                let after = host::remember(
                    inst,
                    scene::HUE_SCENE_PENDING@,
                    JView::Obj(json::put(record, "resource"@, JView::Str(id))),
                );
                (
                    after,
                    Some(
                        host::call_list(
                            bridge::bridge_call(after, "GET"@, "/clip/v2/resource/scene"@, None),
                        ),
                    ),
                )
            },
            (_, Some(_)) => (
                write_failed(inst, "Hue did not identify the scene it created"@),
                Some(seq![]),
            ),
            (_, None) => (inst, Some(next)),
        }
    } else if text::same_letters(method_of(args), "PUT"@) && pending(inst) is Some {
        (inst, Some(next))
    } else if get {
        match answer_data(args) {
            Some(data) => (
                finalized(host::remember(inst, scene::HUE_SCENES@, JView::Arr(data))),
                Some(scenes_offer(data)),
            ),
            None => (inst, Some(seq![])),
        }
    } else {
        (inst, Some(seq![]))
    }
}

fn offer(data: &Vec<Json>) -> (r: Vec<HostCall>)
    ensures
        text::views(r@) == scenes_offer(text::views(data@)),
{
    let scenes = borrowed::borrowed_scene_snapshots(data);
    assert(text::views(scenes@).len() == scenes@.len());
    if scenes.len() == 0 {
        host::no_calls()
    } else {
        host::one_call(HostCall::BorrowedScenes { scenes })
    }
}

fn read_scenes(inst: &Instance) -> (r: Vec<HostCall>)
    ensures
        text::views(r@) == host::call_list(
            bridge::bridge_call(inst@, "GET"@, "/clip/v2/resource/scene"@, None),
        ),
{
    host::list_call(bridge::bridge_http(inst, "GET", "/clip/v2/resource/scene", None))
}

/// Takes an answer about lights, rooms or scenes; nothing where the answer is about something
/// else.
pub fn on_collection_response(inst: &mut Instance, args: &Object) -> (r: Option<Vec<HostCall>>)
    ensures
        final(inst)@ == collection_answered(old(inst)@, args@).0,
        match r {
            Some(calls) => collection_answered(old(inst)@, args@).1 == Some(text::views(calls@)),
            None => collection_answered(old(inst)@, args@).1 is None,
        },
{
    let url = url_in(args);
    let method = method_in(args);
    let status = status_in(args);
    let get = text::same_ignoring_case(method, "GET");
    if get && text::ends_with(url, "/clip/v2/resource/light") {
        match data_in(args) {
            Some(data) => {
                inst.remember(publish::HUE_LIGHTS, Json::array(bridge::copies(data)));
            },
            None => {},
        }
        return Some(host::no_calls());
    }
    if get && text::ends_with(url, "/clip/v2/resource/room") {
        match data_in(args) {
            Some(data) => {
                inst.remember(publish::HUE_ROOMS, Json::array(bridge::copies(data)));
            },
            None => {},
        }
        return Some(host::no_calls());
    }
    if !text::contains(url, "/clip/v2/resource/scene") {
        return None;
    }
    if status >= 400 {
        if inst.scratch.contains_key(scene::HUE_SCENE_PENDING) {
            let problem = rejected("Hue rejected the scene write with HTTP ", status);
            fail_write(inst, problem.as_str());
        }
        return Some(host::no_calls());
    }
    if text::same_ignoring_case(method, "POST") {
        let record = match json::object_of(inst.scratch.get(scene::HUE_SCENE_PENDING)) {
            Some(record) => Some(record.clone()),
            None => None,
        };
        return match (created(args, "scene"), record) {
            (Some(id), Some(record)) => {
                inst.remember(
                    scene::HUE_SCENE_PENDING,
                    Json::object(record.with("resource", Json::Str(id))),
                );
                Some(read_scenes(inst))
            },
            _ => {
                if inst.scratch.contains_key(scene::HUE_SCENE_PENDING) {
                    fail_write(inst, "Hue did not identify the scene it created");
                    Some(host::no_calls())
                } else {
                    Some(read_scenes(inst))
                }
            },
        };
    }
    if text::same_ignoring_case(method, "PUT") && inst.scratch.contains_key(
        scene::HUE_SCENE_PENDING,
    ) {
        return Some(read_scenes(inst));
    }
    if get {
        match data_in(args) {
            Some(data) => {
                inst.remember(scene::HUE_SCENES, Json::array(bridge::copies(data)));
                finalize_pending(inst);
                return Some(offer(data));
            },
            None => {},
        }
    }
    Some(host::no_calls())
}

} // verus!
