//! The bridge as its own driver sees it: its identity, its connection, and the zones on it.

use vstd::prelude::*;
use vstd::string::StringExecFns;
use crate::host;
use crate::host::{HostCall, HostCallView, HttpRequest, Instance, InstanceView};
use crate::json;
use crate::json::{JView, Json, Object};
use crate::text;
use crate::wire;

verus! {

/// Where the bridge remembers its own identity.
pub const HUE_BRIDGE_ID: &'static str = "hue_bridge_id";

/// Where the bridge remembers its zones.
pub const HUE_ZONES: &'static str = "hue_zones";

/// The identity of the bridge, once it has been read.
pub open spec fn identity(inst: InstanceView) -> Option<Seq<char>> {
    json::as_str(host::remembered(inst, HUE_BRIDGE_ID@))
}

/// The identity of the bridge, once it has been read.
pub fn bridge_id(inst: &Instance) -> (r: Option<&str>)
    ensures
        text::view_of(r) == identity(inst@),
{
    json::str_of(inst.scratch.get(HUE_BRIDGE_ID))
}

/// A request to the bridge of this device; nothing where its address is not known.
pub open spec fn bridge_call(
    inst: InstanceView,
    method: Seq<char>,
    path: Seq<char>,
    body: Option<JView>,
) -> Option<HostCallView> {
    match host::property(inst, "Bridge address"@) {
        Some(address) => if address.len() == 0 {
            None
        } else {
            let key = json::str_or(host::property(inst, "Application key"@), ""@);
            let plain = host::with_header(
                host::request(method, "https://"@ + address + path),
                "hue-application-key"@,
                key,
            );
            match body {
                Some(b) => Some(HostCallView::Http(host::with_body(plain, wire::rendered(b)))),
                None => Some(HostCallView::Http(plain)),
            }
        },
        None => None,
    }
}

/// A request to the bridge of this device; nothing where its address is not known.
pub fn bridge_http(inst: &Instance, method: &str, path: &str, body: Option<Json>) -> (r: Option<
    HostCall,
>)
    ensures
        text::view_of(r) == bridge_call(inst@, method@, path@, text::view_of(body)),
{
    let address = match inst.property("Bridge address") {
        Some(a) => a,
        None => {
            return None;
        },
    };
    if address.is_empty() {
        return None;
    }
    let key = match inst.property("Application key") {
        Some(k) => k,
        None => "",
    };
    let mut url = "https://".to_string();
    url.append(address);
    url.append(path);
    let plain = HttpRequest::new(method, url).header("hue-application-key", key);
    match body {
        Some(b) => Some(HostCall::Http(plain.json(wire::render(&b)))),
        None => Some(HostCall::Http(plain)),
    }
}

/// What a device remembers as a list under a key.
pub open spec fn cached_items(inst: InstanceView, key: Seq<char>) -> Seq<JView> {
    json::list_or_empty(json::as_array(host::remembered(inst, key)))
}

/// What a device remembers as a list under a key.
pub fn cached<'a>(inst: &'a Instance, key: &str) -> (r: Vec<&'a Json>)
    ensures
        text::views(r@) == cached_items(inst@, key@),
{
    let mut out: Vec<&'a Json> = Vec::new();
    match json::array_of(inst.scratch.get(key)) {
        Some(items) => {
            let mut i: usize = 0;
            while i < items.len()
                invariant
                    i <= items.len(),
                    out.len() == i,
                    forall|k: int| 0 <= k < i ==> out@[k]@ == items@[k]@,
                decreases items.len() - i,
            {
                out.push(&items[i]);
                i = i + 1;
            }
            assert(text::views(out@) =~= text::views(items@));
        },
        None => {
            assert(text::views(out@) =~= seq![]);
        },
    }
    out
}

/// The first of the first `n` items that has this id.
pub open spec fn named(items: Seq<JView>, n: nat, id: Seq<char>) -> Option<JView>
    decreases n,
{
    if n == 0 {
        None
    } else {
        match named(items, (n - 1) as nat, id) {
            Some(v) => Some(v),
            None => if json::as_str(items[n - 1].get("id"@)) == Some(id) {
                Some(items[n - 1])
            } else {
                None
            },
        }
    }
}

proof fn named_stays(items: Seq<JView>, n: nat, m: nat, id: Seq<char>)
    requires
        n <= m,
        named(items, n, id) is Some,
    ensures
        named(items, m, id) == named(items, n, id),
    decreases m,
{
    if n < m {
        named_stays(items, n, (m - 1) as nat, id);
    }
}

/// The first item of a remembered list that has this id.
pub open spec fn cached_named(inst: InstanceView, key: Seq<char>, id: Seq<char>) -> Option<JView> {
    named(cached_items(inst, key), cached_items(inst, key).len(), id)
}

/// The first item of a remembered list that has this id.
pub fn cached_by_id<'a>(inst: &'a Instance, key: &str, id: &str) -> (r: Option<&'a Json>)
    ensures
        text::view_of(r) == cached_named(inst@, key@, id@),
{
    let items = cached(inst, key);
    let mut i: usize = 0;
    while i < items.len()
        invariant
            i <= items.len(),
            text::views(items@) == cached_items(inst@, key@),
            named(text::views(items@), i as nat, id@) is None,
        decreases items.len() - i,
    {
        let found = match json::str_of(items[i].get("id")) {
            Some(s) => text::same(s, id),
            None => false,
        };
        if found {
            proof {
                named_stays(text::views(items@), (i + 1) as nat, items@.len(), id@);
            }
            return Some(items[i]);
        }
        i = i + 1;
    }
    None
}

/// The zones of the bridge.
pub fn cached_zones<'a>(inst: &'a Instance) -> (r: Vec<&'a Json>)
    ensures
        text::views(r@) == cached_items(inst@, HUE_ZONES@),
{
    cached(inst, HUE_ZONES)
}

/// The zone with this id.
pub fn cached_zone<'a>(inst: &'a Instance, id: &str) -> (r: Option<&'a Json>)
    ensures
        text::view_of(r) == cached_named(inst@, HUE_ZONES@, id@),
{
    cached_by_id(inst, HUE_ZONES, id)
}

/// What a zone is called.
pub open spec fn zone_title(zone: JView) -> Seq<char> {
    json::str_or(json::as_str(zone.get2("metadata"@, "name"@)), ""@)
}

/// What a zone is called.
pub fn zone_name(zone: &Json) -> (r: &str)
    ensures
        r@ == zone_title(zone@),
{
    match json::str_of(zone.get2("metadata", "name")) {
        Some(s) => s,
        None => "",
    }
}

/// The resource ids among the first `n` children that are of one kind, ascending, each once.
pub open spec fn child_ids(children: Seq<JView>, n: nat, kind: Seq<char>) -> Seq<Seq<char>>
    decreases n,
{
    if n == 0 {
        seq![]
    } else {
        let rest = child_ids(children, (n - 1) as nat, kind);
        let child = children[n - 1];
        match json::as_str(child.get("rid"@)) {
            Some(rid) => if json::as_str(child.get("rtype"@)) == Some(kind) {
                text::with_one(rest, rid)
            } else {
                rest
            },
            None => rest,
        }
    }
}

/// The resource ids of the children of a group that are of one kind, ascending, each once.
pub open spec fn children_of(group: JView, kind: Seq<char>) -> Seq<Seq<char>> {
    let children = json::list_or_empty(json::as_array(group.get("children"@)));
    child_ids(children, children.len(), kind)
}

/// The resource ids of the children of a group that are of one kind, ascending, each once.
pub fn children_ids(group: &Json, kind: &str) -> (r: Vec<String>)
    ensures
        text::views(r@) == children_of(group@, kind@),
{
    let mut out: Vec<String> = Vec::new();
    assert(text::views(out@) =~= seq![]);
    match json::array_of(group.get("children")) {
        Some(children) => {
            let mut i: usize = 0;
            while i < children.len()
                invariant
                    i <= children.len(),
                    text::views(out@) == child_ids(text::views(children@), i as nat, kind@),
                decreases children.len() - i,
            {
                let child = &children[i];
                let wanted = match json::str_of(child.get("rtype")) {
                    Some(t) => text::same(t, kind),
                    None => false,
                };
                match json::str_of(child.get("rid")) {
                    Some(rid) => {
                        if wanted {
                            text::add_one(&mut out, rid);
                        }
                    },
                    None => {},
                }
                i = i + 1;
            }
        },
        None => {},
    }
    out
}

/// The lights of a zone, ascending, each once.
pub fn zone_light_ids(zone: &Json) -> (r: Vec<String>)
    ensures
        text::views(r@) == children_of(zone@, "light"@),
{
    children_ids(zone, "light")
}

/// A reference to a resource.
pub open spec fn reference(rid: Seq<char>, rtype: Seq<char>) -> JView {
    JView::Obj(json::put(json::one("rid"@, JView::Str(rid)), "rtype"@, JView::Str(rtype)))
}

/// A reference to a resource.
pub fn refer(rid: &str, rtype: &str) -> (r: Json)
    ensures
        r@ == reference(rid@, rtype@),
{
    Json::object(Object::new().with("rid", Json::text(rid)).with("rtype", Json::text(rtype)))
}

/// References to lights.
pub open spec fn light_references(ids: Seq<Seq<char>>) -> Seq<JView> {
    ids.map_values(|id: Seq<char>| reference(id, "light"@))
}

/// The children of a zone that has these lights.
pub fn zone_children(ids: &Vec<String>) -> (r: Vec<Json>)
    ensures
        text::views(r@) == light_references(text::views(ids@)),
{
    let mut out: Vec<Json> = Vec::new();
    let mut i: usize = 0;
    while i < ids.len()
        invariant
            i <= ids.len(),
            out.len() == i,
            forall|k: int| 0 <= k < i ==> out@[k]@ == reference(ids@[k]@, "light"@),
        decreases ids.len() - i,
    {
        out.push(refer(ids[i].as_str(), "light"));
        i = i + 1;
    }
    assert(text::views(out@) =~= light_references(text::views(ids@)));
    out
}

/// A copy of a list of values.
pub fn copies(items: &Vec<Json>) -> (r: Vec<Json>)
    ensures
        text::views(r@) == text::views(items@),
{
    let mut out: Vec<Json> = Vec::new();
    let mut i: usize = 0;
    while i < items.len()
        invariant
            i <= items.len(),
            out.len() == i,
            forall|k: int| 0 <= k < i ==> out@[k]@ == items@[k]@,
        decreases items.len() - i,
    {
        out.push(items[i].clone());
        i = i + 1;
    }
    assert(text::views(out@) =~= text::views(items@));
    out
}

/// Remembers the zones that the bridge has answered with.
pub fn cache_zone_inventory(inst: &mut Instance, data: &Vec<Json>)
    ensures
        final(inst)@ == host::remember(old(inst)@, HUE_ZONES@, JView::Arr(text::views(data@))),
{
    inst.remember(HUE_ZONES, Json::array(copies(data)));
}

} // verus!
