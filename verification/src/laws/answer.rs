//! Laws of answers: what each answer of the bridge to a read or a write of scenes comes to.

use vstd::prelude::*;
use crate::borrowed;
use crate::bridge;
use crate::follow;
use crate::host;
use crate::host::{HostCallView, HttpRequestView, InstanceView};
use crate::json;
use crate::json::{JView, Members, NumberView};
use crate::laws::native;
use crate::laws::report;
use crate::laws::scene as protocol;
use crate::scene;
use crate::text;

verus! {

/// Whether an answer is to a request: its method in any case, its address, a status that is no
/// failure, and the resources it brings.
pub open spec fn answers(
    args: Members,
    method: Seq<char>,
    url: Seq<char>,
    data: Option<Seq<JView>>,
) -> bool {
    &&& json::lookup(args, "method"@) matches Some(JView::Str(m)) && text::same_letters(m, method)
    &&& json::lookup(args, "url"@) == Some(JView::Str(url))
    &&& match json::lookup(args, "status"@) {
        Some(JView::Num(NumberView::PosInt(code))) => code < 400,
        _ => true,
    }
    &&& data == match json::lookup(args, "body"@) {
        Some(body) => match body.get("data"@) {
            Some(JView::Arr(items)) => Some(items),
            _ => None,
        },
        None => None,
    }
}

/// Whether an answer is a failure with a status.
pub open spec fn fails(args: Members, code: u64) -> bool {
    code >= 400 && json::lookup(args, "status"@) == Some(JView::Num(NumberView::PosInt(code)))
}

/// Whether a device remembers something under a key, and otherwise what it did.
pub open spec fn remembers(
    inst: InstanceView,
    after: InstanceView,
    key: Seq<char>,
    value: JView,
) -> bool {
    &&& after.properties == inst.properties
    &&& json::lookup(after.scratch, key) == Some(value)
    &&& forall|k: Seq<char>|
        k != key ==> #[trigger] json::lookup(after.scratch, k) == json::lookup(inst.scratch, k)
}

/// Whether the write in progress ended with a problem, and nothing else changed.
pub open spec fn ends_with(inst: InstanceView, after: InstanceView, problem: Seq<char>) -> bool {
    &&& after.properties == inst.properties
    &&& json::lookup(after.scratch, "hue_scene_pending"@) is None
    &&& json::lookup(after.scratch, "hue_scene_problem"@) == Some(JView::Str(problem))
    &&& forall|k: Seq<char>|
        k != "hue_scene_pending"@ && k != "hue_scene_problem"@ ==> #[trigger] json::lookup(
            after.scratch,
            k,
        ) == json::lookup(inst.scratch, k)
}

/// Whether calls are one read of a collection, or none where the bridge has no address.
pub open spec fn rereads(
    calls: Seq<HostCallView>,
    inst: InstanceView,
    collection: Seq<char>,
) -> bool {
    if report::is_set(inst, "Bridge address"@) {
        let address = json::lookup(inst.properties, "Bridge address"@)->0->Str_0;
        let key = match native::as_text(json::lookup(inst.properties, "Application key"@)) {
            Some(key) => key,
            None => ""@,
        };
        calls == seq![
            HostCallView::Http(
                HttpRequestView {
                    method: "GET"@,
                    url: "https://"@ + address + collection,
                    headers: seq![("hue-application-key"@, key)],
                    body: None,
                },
            ),
        ]
    } else {
        calls.len() == 0
    }
}

proof fn call_rereads(inst: InstanceView, collection: Seq<char>)
    ensures
        rereads(
            host::call_list(bridge::bridge_call(inst, "GET"@, collection, None)),
            inst,
            collection,
        ),
{
    let key = json::str_or(host::property(inst, "Application key"@), ""@);
    assert(seq![("hue-application-key"@, key)] =~= Seq::<(Seq<char>, Seq<char>)>::empty().push(
        ("hue-application-key"@, key),
    ));
}

proof fn methods(a: Seq<char>)
    ensures
        text::same_letters(a, "GET"@) ==> !text::same_letters(a, "POST"@) && !text::same_letters(
            a,
            "PUT"@,
        ),
        text::same_letters(a, "POST"@) ==> !text::same_letters(a, "GET"@) && !text::same_letters(
            a,
            "PUT"@,
        ),
        text::same_letters(a, "PUT"@) ==> !text::same_letters(a, "GET"@) && !text::same_letters(
            a,
            "POST"@,
        ),
{
    reveal_strlit("GET");
    reveal_strlit("POST");
    reveal_strlit("PUT");
    assert("GET"@[0] == 'G' && "PUT"@[0] == 'P');
    assert("GET"@.len() == 3 && "POST"@.len() == 4 && "PUT"@.len() == 3);
    assert(text::lower("GET"@[0]) != text::lower("PUT"@[0]));
    if text::same_letters(a, "GET"@) {
        assert(text::lower(a[0]) == text::lower("GET"@[0]));
    }
    if text::same_letters(a, "PUT"@) {
        assert(text::lower(a[0]) == text::lower("PUT"@[0]));
    }
}

/// The lights and the rooms that the bridge lists are remembered as it lists them, and nothing is
/// asked.
pub proof fn lights_and_rooms_are_remembered(
    inst: InstanceView,
    args: Members,
    url: Seq<char>,
    data: Seq<JView>,
)
    requires
        answers(args, "GET"@, url, Some(data)),
    ensures
        text::ends(url, "/clip/v2/resource/light"@) ==> remembers(
            inst,
            follow::collection_answered(inst, args).0,
            "hue_lights"@,
            JView::Arr(data),
        ) && follow::collection_answered(inst, args).1 == Some(Seq::<HostCallView>::empty()),
        !text::ends(url, "/clip/v2/resource/light"@) && text::ends(url, "/clip/v2/resource/room"@)
            ==> remembers(
            inst,
            follow::collection_answered(inst, args).0,
            "hue_rooms"@,
            JView::Arr(data),
        ) && follow::collection_answered(inst, args).1 == Some(Seq::<HostCallView>::empty()),
{
    broadcast use json::lookup_put;

}

/// Whether an address is that of scenes.
pub open spec fn is_of_scenes(url: Seq<char>) -> bool {
    &&& text::holds(url, "/clip/v2/resource/scene"@)
    &&& !text::ends(url, "/clip/v2/resource/light"@)
    &&& !text::ends(url, "/clip/v2/resource/room"@)
}

/// Whether the resource at `k` is the first of a kind among those an answer brings.
pub open spec fn is_first_of_kind(data: Seq<JView>, k: int, kind: Seq<char>) -> bool {
    &&& 0 <= k < data.len()
    &&& data[k].get("rtype"@) == Some(JView::Str(kind)) || data[k].get("type"@) == Some(
        JView::Str(kind),
    )
    &&& forall|j: int|
        0 <= j < k ==> (#[trigger] data[j]).get("rtype"@) != Some(JView::Str(kind))
            && data[j].get("type"@) != Some(JView::Str(kind))
}

/// Whether an answer names what was created: the first resource of a kind, by the id it refers to
/// or else its own.
pub open spec fn creates(data: Seq<JView>, k: int, kind: Seq<char>, id: Seq<char>) -> bool {
    &&& is_first_of_kind(data, k, kind)
    &&& data[k].get("rid"@) == Some(JView::Str(id)) || (data[k].get("rid"@) is None
        && data[k].get("id"@) == Some(JView::Str(id)))
}

/// Whether an answer names nothing of a kind.
pub open spec fn creates_nothing(data: Option<Seq<JView>>, kind: Seq<char>) -> bool {
    data matches Some(items) ==> forall|j: int|
        0 <= j < items.len() ==> (#[trigger] items[j]).get("rtype"@) != Some(JView::Str(kind))
            && items[j].get("type"@) != Some(JView::Str(kind))
}

proof fn first_is_found(data: Seq<JView>, k: int, kind: Seq<char>, n: nat)
    requires
        n <= data.len(),
        is_first_of_kind(data, k, kind),
    ensures
        follow::first_of_kind(data, n, kind) == if k < n {
            Some(data[k])
        } else {
            None
        },
    decreases n,
{
    if n > 0 {
        first_is_found(data, k, kind, (n - 1) as nat);
        if n - 1 < k {
            assert(data[n - 1].get("rtype"@) != Some(JView::Str(kind)));
        }
    }
}

proof fn none_is_found(data: Seq<JView>, kind: Seq<char>, n: nat)
    requires
        n <= data.len(),
        creates_nothing(Some(data), kind),
    ensures
        follow::first_of_kind(data, n, kind) is None,
    decreases n,
{
    if n > 0 {
        none_is_found(data, kind, (n - 1) as nat);
        assert(data[n - 1].get("rtype"@) != Some(JView::Str(kind)));
    }
}

/// The record of a write with one field set.
pub open spec fn is_record_with(
    after: InstanceView,
    record: Members,
    key: Seq<char>,
    value: JView,
) -> bool {
    json::lookup(after.scratch, "hue_scene_pending"@) matches Some(JView::Obj(now)) && (forall|
        k: Seq<char>,
    |
        #[trigger] json::lookup(now, k) == if k == key {
            Some(value)
        } else {
            json::lookup(record, k)
        })
}

/// A scene that was created while a write is begun is remembered as what the write reached, and the
/// scenes are read again.
pub proof fn a_created_scene_is_read_back(
    inst: InstanceView,
    args: Members,
    url: Seq<char>,
    data: Seq<JView>,
    k: int,
    id: Seq<char>,
    record: Members,
)
    requires
        answers(args, "POST"@, url, Some(data)),
        is_of_scenes(url),
        creates(data, k, "scene"@, id),
        json::lookup(inst.scratch, "hue_scene_pending"@) == Some(JView::Obj(record)),
    ensures
        ({
            let (after, calls) = follow::collection_answered(inst, args);
            &&& is_record_with(after, record, "resource"@, JView::Str(id))
            &&& after.properties == inst.properties
            &&& forall|key: Seq<char>|
                key != "hue_scene_pending"@ ==> #[trigger] json::lookup(after.scratch, key)
                    == json::lookup(inst.scratch, key)
            &&& calls is Some && rereads(calls->0, inst, "/clip/v2/resource/scene"@)
        }),
{
    broadcast use json::lookup_put;

    methods(follow::method_of(args));
    first_is_found(data, k, "scene"@, data.len());
    let after = follow::collection_answered(inst, args).0;
    call_rereads(after, "/clip/v2/resource/scene"@);
}

/// A write that created nothing the bridge names ends with a problem that says so.
pub proof fn a_creation_must_be_named(
    inst: InstanceView,
    args: Members,
    url: Seq<char>,
    data: Option<Seq<JView>>,
)
    requires
        answers(args, "POST"@, url, data),
        json::lookup(inst.scratch, "hue_scene_pending"@) is Some,
    ensures
        is_of_scenes(url) && creates_nothing(data, "scene"@) ==> ends_with(
            inst,
            follow::collection_answered(inst, args).0,
            "Hue did not identify the scene it created"@,
        ) && follow::collection_answered(inst, args).1 == Some(Seq::<HostCallView>::empty()),
        creates_nothing(data, "zone"@) ==> ends_with(
            inst,
            follow::zone_answered(inst, args).0,
            "Hue did not identify the scene zone it created"@,
        ) && follow::zone_answered(inst, args).1.len() == 0,
{
    broadcast use {json::lookup_put, json::lookup_without};

    protocol::memory_keys();
    methods(follow::method_of(args));
    match data {
        Some(items) => {
            if creates_nothing(data, "scene"@) {
                none_is_found(items, "scene"@, items.len());
            }
            if creates_nothing(data, "zone"@) {
                none_is_found(items, "zone"@, items.len());
            }
        },
        None => {},
    }
}

/// A scene that was written over, while a write is begun, is read back, and nothing is remembered.
pub proof fn an_updated_scene_is_read_back(
    inst: InstanceView,
    args: Members,
    url: Seq<char>,
    data: Option<Seq<JView>>,
)
    requires
        answers(args, "PUT"@, url, data),
        is_of_scenes(url),
        json::lookup(inst.scratch, "hue_scene_pending"@) is Some,
    ensures
        ({
            let (after, calls) = follow::collection_answered(inst, args);
            after == inst && calls is Some && rereads(
                calls->0,
                inst,
                "/clip/v2/resource/scene"@,
            )
        }),
{
    methods(follow::method_of(args));
    call_rereads(inst, "/clip/v2/resource/scene"@);
}

/// A write that the bridge turns down ends with a problem that names its status; where no write is
/// begun, nothing changes.
pub proof fn a_rejection_is_remembered(
    inst: InstanceView,
    args: Members,
    url: Seq<char>,
    code: u64,
)
    requires
        fails(args, code),
        json::lookup(args, "url"@) == Some(JView::Str(url)),
    ensures
        is_of_scenes(url) && json::lookup(inst.scratch, "hue_scene_pending"@) is Some
            ==> ends_with(
            inst,
            follow::collection_answered(inst, args).0,
            "Hue rejected the scene write with HTTP "@ + text::decimal(code as nat),
        ),
        is_of_scenes(url) && json::lookup(inst.scratch, "hue_scene_pending"@) is None
            ==> follow::collection_answered(inst, args).0 == inst,
        is_of_scenes(url) ==> follow::collection_answered(inst, args).1 == Some(
            Seq::<HostCallView>::empty(),
        ),
        ends_with(
            inst,
            follow::zone_answered(inst, args).0,
            "Hue rejected the scene zone write with HTTP "@ + text::decimal(code as nat),
        ),
        follow::zone_answered(inst, args).1.len() == 0,
{
    broadcast use {json::lookup_put, json::lookup_without};

    protocol::memory_keys();
}

/// The scenes that the bridge lists are remembered as it lists them, and those that can be are
/// offered, in one offer, or none where there are none.
pub proof fn listed_scenes_are_remembered_and_offered(
    inst: InstanceView,
    args: Members,
    url: Seq<char>,
    data: Seq<JView>,
)
    requires
        answers(args, "GET"@, url, Some(data)),
        is_of_scenes(url),
    ensures
        ({
            let (after, calls) = follow::collection_answered(inst, args);
            &&& after.properties == inst.properties
            &&& json::lookup(after.scratch, "hue_scenes"@) == Some(JView::Arr(data))
            &&& calls == Some(
                if borrowed::snapshots(data, data.len()).len() == 0 {
                    seq![]
                } else {
                    seq![
                        HostCallView::BorrowedScenes {
                            scenes: borrowed::snapshots(data, data.len()),
                        },
                    ]
                },
            )
            &&& json::lookup(inst.scratch, "hue_scene_pending"@) is None ==> remembers(
                inst,
                after,
                "hue_scenes"@,
                JView::Arr(data),
            )
        }),
{
    broadcast use {json::lookup_put, json::lookup_without};

    protocol::memory_keys();
    methods(follow::method_of(args));
}

/// Whether a link says what a write was for: that it is ours, the bridge, the scene and its name,
/// the marks, the group and the lights.
pub open spec fn is_link_of(link: JView, record: JView, id: Seq<char>, native: JView) -> bool {
    &&& link.get("ownership"@) == Some(JView::Str("juno"@))
    &&& link.get("bridge_id"@) == Some(or_nothing(record.get("bridge_id"@)))
    &&& link.get("scene"@) == Some(JView::Str(id))
    &&& link.get("name"@) == Some(JView::Str(native::called(native)))
    &&& link.get("token"@) == record.get("token"@)
    &&& link.get("appdata"@) == record.get("appdata"@)
    &&& link.get("group"@) == Some(or_nothing(record.get("group"@)))
    &&& link.get("light_ids"@) == Some(or_nothing(record.get("light_ids"@)))
}

/// A value, or null where there is none.
pub open spec fn or_nothing(value: Option<JView>) -> JView {
    match value {
        Some(v) => v,
        None => JView::Null,
    }
}

proof fn link_is_made(record: JView, id: Seq<char>, native: JView)
    requires
        record.get("token"@) matches Some(JView::Str(_)),
        record.get("appdata"@) matches Some(JView::Str(_)),
    ensures
        is_link_of(follow::finished_link(record, id, native), record, id, native),
{
    broadcast use json::lookup_put;

    protocol::record_keys();
}

/// When the bridge lists the scene that a write reached, with the marks of the write, the scene of
/// this house is linked to it with what the write was for, nothing is in progress and no problem is
/// left. Where it is not listed, or listed without the marks, the write ends with a problem that
/// says which.
pub proof fn a_write_ends_when_its_scene_is_listed(
    inst: InstanceView,
    args: Members,
    url: Seq<char>,
    data: Seq<JView>,
    record: JView,
    number: u32,
    id: Seq<char>,
    i: int,
)
    requires
        answers(args, "GET"@, url, Some(data)),
        is_of_scenes(url),
        json::lookup(inst.scratch, "hue_scene_pending"@) == Some(record),
        record.get("resource"@) == Some(JView::Str(id)),
        record.get("scene"@) == Some(JView::Num(NumberView::PosInt(number as u64))),
    ensures
        ({
            let listed = host::remember(inst, "hue_scenes"@, JView::Arr(data));
            let after = follow::collection_answered(inst, args).0;
            &&& native::is_missing(data, id) ==> ends_with(
                listed,
                after,
                "Hue did not return the scene after writing it"@,
            )
            &&& native::is_first(data, i, id) && !native::is_marked(data[i], record) ==> ends_with(
                listed,
                after,
                "Hue returned a scene without Juno's ownership markers"@,
            )
            &&& native::is_first(data, i, id) && native::is_marked(data[i], record) ==> {
                &&& native::link(after, number) is Some
                &&& is_link_of(native::link(after, number)->0, record, id, data[i])
                &&& json::lookup(after.scratch, "hue_scene_pending"@) is None
                &&& json::lookup(after.scratch, "hue_scene_problem"@) is None
                &&& forall|k: Seq<char>|
                    k != "hue_scene_pending"@ && k != "hue_scene_problem"@ && k
                        != "hue_scene_links"@ ==> #[trigger] json::lookup(after.scratch, k)
                        == json::lookup(listed.scratch, k)
            }
        }),
{
    broadcast use {json::lookup_put, json::lookup_without};

    protocol::memory_keys();
    methods(follow::method_of(args));
    let listed = host::remember(inst, "hue_scenes"@, JView::Arr(data));
    let after = follow::collection_answered(inst, args).0;
    assert(after == follow::finalized(listed));
    assert(follow::pending(listed) == Some(record));
    assert(bridge::cached_items(listed, "hue_scenes"@) == data);
    native::an_item_is_found_by_its_id(data, i, id, data.len());
    if 0 <= i < data.len() {
        native::marks_are_seen(data[i], record);
        if native::is_marked(data[i], record) {
            link_is_made(record, id, data[i]);
        }
    }
    assert(number as u64 % 0x1_0000_0000 == number);
}

/// A zone that was created for a scene is remembered with the write, and the zones are read back.
pub proof fn a_created_zone_is_read_back(
    inst: InstanceView,
    args: Members,
    url: Seq<char>,
    data: Seq<JView>,
    k: int,
    id: Seq<char>,
    record: Members,
)
    requires
        answers(args, "POST"@, url, Some(data)),
        creates(data, k, "zone"@, id),
        json::lookup(inst.scratch, "hue_scene_pending"@) == Some(JView::Obj(record)),
    ensures
        ({
            let (after, calls) = follow::zone_answered(inst, args);
            &&& is_record_with(after, record, "zone"@, JView::Str(id))
            &&& after.properties == inst.properties
            &&& forall|key: Seq<char>|
                key != "hue_scene_pending"@ ==> #[trigger] json::lookup(after.scratch, key)
                    == json::lookup(inst.scratch, key)
            &&& rereads(calls, inst, "/clip/v2/resource/zone"@)
        }),
{
    broadcast use json::lookup_put;

    methods(follow::method_of(args));
    first_is_found(data, k, "zone"@, data.len());
    let after = follow::zone_answered(inst, args).0;
    call_rereads(after, "/clip/v2/resource/zone"@);
}

/// Whether a zone is the one a write asked for: its lights and no other, and its mark in its name.
pub open spec fn is_asked_zone(zone: JView, lights: Seq<Seq<char>>, token: Seq<char>) -> bool {
    &&& native::zone_has(zone, lights)
    &&& token.len() > 0
    &&& exists|at: int| #[trigger] text::stands_at(zone_called(zone), token, at)
}

/// What a zone is called.
pub open spec fn zone_called(zone: JView) -> Seq<char> {
    match native::as_text(zone.get2("metadata"@, "name"@)) {
        Some(name) => name,
        None => ""@,
    }
}

proof fn zone_is_checked(zone: JView, lights: Seq<Seq<char>>, token: Seq<char>)
    requires
        text::is_ascending(lights),
    ensures
        follow::zone_matches(zone, lights, token) <==> is_asked_zone(zone, lights, token),
{
    native::zone_is_exact(zone, lights);
    let name = bridge::zone_title(zone);
    assert(name == zone_called(zone));
    if text::holds(name, token) {
        let at = choose|at: int| text::stands_at(name, token, at);
        assert(text::stands_at(zone_called(zone), token, at));
    }
}

/// When the bridge lists the zone that was made for a scene, with exactly the lights and the mark
/// that were asked for, the scene is written to it: over its own where it was published before, and
/// as a new one otherwise, with that zone as its group. Where the zone is missing or another, the
/// write ends with a problem that says which, and nothing is sent.
pub proof fn a_scene_is_written_to_its_zone(
    inst: InstanceView,
    args: Members,
    url: Seq<char>,
    data: Seq<JView>,
    record: Members,
    zone: Seq<char>,
    lights: Seq<Seq<char>>,
    token: Seq<char>,
    body: Members,
    i: int,
)
    requires
        answers(args, "GET"@, url, Some(data)),
        json::lookup(inst.scratch, "hue_scene_pending"@) == Some(JView::Obj(record)),
        json::lookup(record, "zone"@) == Some(JView::Str(zone)),
        json::lookup(record, "light_ids"@) == Some(json::string_array(lights)),
        json::lookup(record, "token"@) == Some(JView::Str(token)),
        json::lookup(record, "body"@) == Some(JView::Obj(body)),
        text::is_ascending(lights),
        report::is_set(inst, "Bridge address"@),
    ensures
        ({
            let listed = host::remember(inst, "hue_zones"@, JView::Arr(data));
            let (after, calls) = follow::zone_answered(inst, args);
            &&& native::is_missing(data, zone) ==> calls.len() == 0 && ends_with(
                listed,
                after,
                "Hue did not return the scene zone after creating it"@,
            )
            &&& native::is_first(data, i, zone) && !is_asked_zone(data[i], lights, token)
                ==> calls.len() == 0 && ends_with(
                listed,
                after,
                "Hue returned a scene zone that did not match Juno's requested name and lights"@,
            )
            &&& native::is_first(data, i, zone) && is_asked_zone(data[i], lights, token)
                ==> is_written_to_zone(listed, after, calls, record, zone, body)
        }),
{
    broadcast use {json::lookup_put, json::lookup_without};

    protocol::memory_keys();
    protocol::record_keys();
    methods(follow::method_of(args));
    let listed = host::remember(inst, "hue_zones"@, JView::Arr(data));
    assert(follow::pending(listed) == Some(JView::Obj(record)));
    assert(bridge::cached_items(listed, "hue_zones"@) == data);
    native::an_item_is_found_by_its_id(data, i, zone, data.len());
    json::strings_are_read_back(lights);
    let items = json::as_array(json::lookup(record, "light_ids"@))->0;
    assert forall|k: int| 0 <= k < items.len() implies #[trigger] items[k] is Str by {}
    assert(follow::string_list(json::lookup(record, "light_ids"@)) == lights);
    if 0 <= i < data.len() {
        zone_is_checked(data[i], lights, token);
        if native::is_first(data, i, zone) && is_asked_zone(data[i], lights, token) {
            write_continues(listed, record, zone, body, data[i]);
        }
    }
}

/// Whether a write went on in a zone: one request that writes the scene, to the zone, and a record
/// that says so.
pub open spec fn is_written_to_zone(
    inst: InstanceView,
    after: InstanceView,
    calls: Seq<HostCallView>,
    record: Members,
    zone: Seq<char>,
    body: Members,
) -> bool {
    let existing = match native::as_text(json::lookup(record, "existing"@)) {
        Some(id) => if id.len() > 0 {
            Some(id)
        } else {
            None
        },
        None => None,
    };
    &&& calls.len() == 1
    &&& json::lookup(after.scratch, "hue_scene_pending"@) matches Some(JView::Obj(now)) && {
        let group = json::lookup(now, "group"@)->0;
        let sent = json::lookup(now, "body"@)->0;
        &&& json::lookup(now, "group"@) is Some
        &&& group.get("rid"@) == Some(JView::Str(zone))
        &&& group.get("rtype"@) == Some(JView::Str("zone"@))
        &&& json::lookup(now, "body"@) is Some
        &&& sent.get("group"@) == Some(group)
        &&& forall|k: Seq<char>|
            k != "group"@ ==> #[trigger] sent.get(k) == json::lookup(body, k)
        &&& json::lookup(now, "kind"@) == Some(
            JView::Str(
                if existing is Some {
                    "scene_update"@
                } else {
                    "scene_create"@
                },
            ),
        )
        &&& forall|k: Seq<char>|
            k != "group"@ && k != "body"@ && k != "kind"@ ==> #[trigger] json::lookup(now, k)
                == json::lookup(record, k)
        &&& match existing {
            Some(id) => native::asks(
                calls[0],
                inst,
                "PUT"@,
                "/clip/v2/resource/scene/"@ + id,
                sent,
            ),
            None => native::asks(calls[0], inst, "POST"@, "/clip/v2/resource/scene"@, sent),
        }
    }
    &&& after.properties == inst.properties
    &&& forall|k: Seq<char>|
        k != "hue_scene_pending"@ ==> #[trigger] json::lookup(after.scratch, k) == json::lookup(
            inst.scratch,
            k,
        )
}

proof fn write_continues(
    inst: InstanceView,
    record: Members,
    zone: Seq<char>,
    body: Members,
    found: JView,
)
    requires
        follow::pending(inst) == Some(JView::Obj(record)),
        json::lookup(record, "zone"@) == Some(JView::Str(zone)),
        json::lookup(record, "body"@) == Some(JView::Obj(body)),
        bridge::cached_named(inst, "hue_zones"@, zone) == Some(found),
        follow::zone_matches(
            found,
            follow::string_list(json::lookup(record, "light_ids"@)),
            scene::text_in(JView::Obj(record), "token"@),
        ),
        report::is_set(inst, "Bridge address"@),
    ensures
        is_written_to_zone(
            inst,
            follow::zone_continued(inst).0,
            follow::zone_continued(inst).1,
            record,
            zone,
            body,
        ),
{
    broadcast use json::lookup_put;

    protocol::record_keys();
    reveal_strlit("rid");
    reveal_strlit("rtype");
    assert("rid"@.len() != "rtype"@.len());
    let group = bridge::reference(zone, "zone"@);
    let next = follow::zone_record(record, group);
    let after = host::remember(inst, "hue_scene_pending"@, JView::Obj(next));
    assert(follow::zone_continued(inst).0 == after);
    let sent = JView::Obj(json::put(body, "group"@, group));
    assert(json::lookup(next, "body"@) == Some(sent));
    assert(json::lookup(next, "group"@) == Some(group));
    let (method, path, _) = scene::write_for(follow::update_of(record));
    native::call_asks(after, method, path, sent);
}

} // verus!
