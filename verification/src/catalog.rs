//! Everything behind the bridge that is not a bulb, read off `/clip/v2/resource/device`.
//!
//! One request rather than one per resource type. A device entry already names its own services,
//! so motion, temperature, light level and battery all arrive together and already grouped by the
//! physical thing they belong to. What a device entry does not carry is which button is which, so
//! a second request puts the buttons in the order they are printed.

use vstd::prelude::*;
use crate::json;
use crate::json::{JView, Json, Members, Object};
use crate::text;

verus! {

/// The resources in an answer.
pub open spec fn response_data(response: Option<JView>) -> Option<Seq<JView>> {
    match response {
        Some(r) => json::as_array(r.get("data"@)),
        None => None,
    }
}

/// The resources in an answer.
pub fn data_of(response: Option<&Json>) -> (r: Option<&Vec<Json>>)
    ensures
        match r {
            Some(items) => response_data(text::view_of(response)) == Some(text::views(items@)),
            None => response_data(text::view_of(response)) is None,
        },
{
    match response {
        Some(r) => json::array_of(r.get("data")),
        None => None,
    }
}

/// The resources in an answer, or none.
pub open spec fn data_or_none(response: Option<JView>) -> Seq<JView> {
    json::list_or_empty(response_data(response))
}

/// The ids of those of the first `n` services that are of a type.
pub open spec fn services_of_type(services: Seq<JView>, n: nat, wanted: Seq<char>) -> Seq<Seq<char>>
    decreases n,
{
    if n == 0 {
        seq![]
    } else {
        let rest = services_of_type(services, (n - 1) as nat, wanted);
        let service = services[n - 1];
        match json::as_str(service.get("rid"@)) {
            Some(rid) => if json::as_str(service.get("rtype"@)) == Some(wanted) {
                rest.push(rid)
            } else {
                rest
            },
            None => rest,
        }
    }
}

/// The ids of the services of a type.
pub open spec fn of_type(services: Seq<JView>, wanted: Seq<char>) -> Seq<Seq<char>> {
    services_of_type(services, services.len(), wanted)
}

fn of_type_in(services: &Vec<Json>, wanted: &str) -> (r: Vec<String>)
    ensures
        text::views(r@) == of_type(text::views(services@), wanted@),
        r@.len() == of_type(text::views(services@), wanted@).len(),
{
    let mut out: Vec<String> = Vec::new();
    assert(text::views(out@) =~= seq![]);
    let mut i: usize = 0;
    while i < services.len()
        invariant
            i <= services.len(),
            text::views(out@) == services_of_type(text::views(services@), i as nat, wanted@),
        decreases services.len() - i,
    {
        broadcast use text::views_push;

        let service = &services[i];
        let wanted_type = match json::str_of(service.get("rtype")) {
            Some(t) => text::same(t, wanted),
            None => false,
        };
        match json::str_of(service.get("rid")) {
            Some(rid) => {
                if wanted_type {
                    out.push(rid.to_string());
                }
            },
            None => {},
        }
        i = i + 1;
    }
    assert(text::views(out@).len() == out@.len());
    out
}

/// A text of a device, or another one.
pub open spec fn device_text(
    device: JView,
    a: Seq<char>,
    b: Seq<char>,
    other: Seq<char>,
) -> JView {
    JView::Str(json::str_or(json::as_str(device.get2(a, b)), other))
}

/// An entry with a list of ids, where there are any.
pub open spec fn put_list(entry: Members, key: Seq<char>, ids: Seq<Seq<char>>) -> Members {
    if ids.len() > 0 {
        json::put(entry, key, json::string_array(ids))
    } else {
        entry
    }
}

/// An entry with the first of some ids, where there is one.
pub open spec fn put_first(entry: Members, key: Seq<char>, ids: Seq<Seq<char>>) -> Members {
    if ids.len() > 0 {
        json::put(entry, key, JView::Str(ids[0]))
    } else {
        entry
    }
}

/// A device reduced to what is needed of it.
pub open spec fn compact_entry(device: JView, services: Seq<JView>) -> Members {
    let a = json::one("id"@, JView::Str(json::str_or(json::as_str(device.get("id"@)), ""@)));
    let b = put_list(a, "lights"@, of_type(services, "light"@));
    let c = json::put(b, "name"@, device_text(device, "metadata"@, "name"@, "Hue device"@));
    let d = json::put(c, "model"@, device_text(device, "product_data"@, "model_id"@, ""@));
    let e = json::put(d, "product"@, device_text(device, "product_data"@, "product_name"@, ""@));
    let f = put_list(e, "buttons"@, of_type(services, "button"@));
    let g = put_first(f, "motion"@, of_type(services, "motion"@));
    let h = put_first(g, "temperature"@, of_type(services, "temperature"@));
    let i = put_first(h, "light_level"@, of_type(services, "light_level"@));
    let j = put_first(i, "rotary"@, of_type(services, "relative_rotary"@));
    put_first(j, "power"@, of_type(services, "device_power"@))
}

/// A device worth keeping, reduced to what is needed of it: one that has a button, a motion
/// sensor or a light.
pub open spec fn compact_device(device: JView) -> Option<JView> {
    match json::as_array(device.get("services"@)) {
        Some(services) => if of_type(services, "button"@).len() == 0 && of_type(
            services,
            "motion"@,
        ).len() == 0 && of_type(services, "light"@).len() == 0 {
            None
        } else {
            Some(JView::Obj(compact_entry(device, services)))
        },
        None => None,
    }
}

/// Those of the first `n` devices that are worth keeping.
pub open spec fn compacted(data: Seq<JView>, n: nat) -> Seq<JView>
    decreases n,
{
    if n == 0 {
        seq![]
    } else {
        let rest = compacted(data, (n - 1) as nat);
        match compact_device(data[n - 1]) {
            Some(d) => rest.push(d),
            None => rest,
        }
    }
}

fn text_of_device(device: &Json, a: &str, b: &str, other: &str) -> (r: Json)
    ensures
        r@ == device_text(device@, a@, b@, other@),
{
    match json::str_of(device.get2(a, b)) {
        Some(s) => Json::text(s),
        None => Json::text(other),
    }
}

fn add_list(entry: Object, key: &str, ids: &Vec<String>) -> (r: Object)
    ensures
        r@ == put_list(entry@, key@, text::views(ids@)),
{
    assert(text::views(ids@).len() == ids@.len());
    if ids.len() > 0 {
        entry.with(key, Json::texts(ids))
    } else {
        entry
    }
}

fn add_first(entry: Object, key: &str, ids: &Vec<String>) -> (r: Object)
    ensures
        r@ == put_first(entry@, key@, text::views(ids@)),
{
    assert(text::views(ids@).len() == ids@.len());
    if ids.len() > 0 {
        entry.with(key, Json::text(ids[0].as_str()))
    } else {
        entry
    }
}

fn compact_one(device: &Json) -> (r: Option<Json>)
    ensures
        text::view_of(r) == compact_device(device@),
{
    let services = match json::array_of(device.get("services")) {
        Some(s) => s,
        None => {
            return None;
        },
    };
    let buttons = of_type_in(services, "button");
    let motion = of_type_in(services, "motion");
    let lights = of_type_in(services, "light");
    if buttons.len() == 0 && motion.len() == 0 && lights.len() == 0 {
        return None;
    }
    let id = match json::str_of(device.get("id")) {
        Some(s) => s,
        None => "",
    };
    let a = Object::new().with("id", Json::text(id));
    let b = add_list(a, "lights", &lights);
    let c = b.with("name", text_of_device(device, "metadata", "name", "Hue device"));
    let d = c.with("model", text_of_device(device, "product_data", "model_id", ""));
    let e = d.with("product", text_of_device(device, "product_data", "product_name", ""));
    let f = add_list(e, "buttons", &buttons);
    let g = add_first(f, "motion", &motion);
    let h = add_first(g, "temperature", &of_type_in(services, "temperature"));
    let i = add_first(h, "light_level", &of_type_in(services, "light_level"));
    let j = add_first(i, "rotary", &of_type_in(services, "relative_rotary"));
    let entry = add_first(j, "power", &of_type_in(services, "device_power"));
    Some(Json::object(entry))
}

/// The devices worth keeping, reduced to what is needed of them.
///
/// Kept small deliberately: this travels between the steps of setting up, and the whole answer for
/// a large house is a few hundred kilobytes that nothing here reads.
pub fn compact(response: Option<&Json>) -> (r: Vec<Json>)
    ensures
        text::views(r@) == compacted(
            data_or_none(text::view_of(response)),
            data_or_none(text::view_of(response)).len(),
        ),
{
    let mut out: Vec<Json> = Vec::new();
    assert(text::views(out@) =~= seq![]);
    match data_of(response) {
        Some(data) => {
            let mut i: usize = 0;
            while i < data.len()
                invariant
                    i <= data.len(),
                    text::views(out@) == compacted(text::views(data@), i as nat),
                decreases data.len() - i,
            {
                broadcast use text::views_push;

                match compact_one(&data[i]) {
                    Some(d) => out.push(d),
                    None => {},
                }
                i = i + 1;
            }
            assert(text::views(data@).len() == data@.len());
        },
        None => {},
    }
    out
}

/// The number that the last of the first `n` button resources with this id carries.
pub open spec fn control_id(data: Seq<JView>, n: nat, id: Seq<char>) -> Option<u64>
    decreases n,
{
    if n == 0 {
        None
    } else {
        let button = data[n - 1];
        let number = json::as_u64(button.get2("metadata"@, "control_id"@));
        if json::as_str(button.get("id"@)) == Some(id) && number is Some {
            number
        } else {
            control_id(data, (n - 1) as nat, id)
        }
    }
}

/// Where a button comes: by its number, and after every numbered one where it has none.
pub open spec fn button_order(data: Seq<JView>, id: Seq<char>) -> u64 {
    match control_id(data, data.len(), id) {
        Some(n) => n,
        None => u64::MAX,
    }
}

/// How many buttons from position `i` on come no later than `order`, stopping at the first that
/// does, counted from the start.
pub open spec fn button_slot(data: Seq<JView>, list: Seq<Seq<char>>, order: u64, i: nat) -> nat
    decreases list.len() - i,
{
    if i < list.len() && button_order(data, list[i as int]) <= order {
        button_slot(data, list, order, i + 1)
    } else {
        i
    }
}

/// The first `n` buttons in the order they are printed; buttons that come alike keep their order.
pub open spec fn printed_order(data: Seq<JView>, ids: Seq<Seq<char>>, n: nat) -> Seq<Seq<char>>
    decreases n,
{
    if n == 0 {
        seq![]
    } else {
        let rest = printed_order(data, ids, (n - 1) as nat);
        let id = ids[n - 1];
        rest.insert(button_slot(data, rest, button_order(data, id), 0) as int, id)
    }
}

/// A value with one member set: an object, or null, which becomes one.
pub open spec fn set_member(v: JView, key: Seq<char>, value: JView) -> JView {
    match v {
        JView::Obj(members) => JView::Obj(json::put(members, key, value)),
        JView::Null => JView::Obj(json::one(key, value)),
        _ => v,
    }
}

/// Sets one member of an object, or of null, which becomes one.
pub fn set_in(v: &Json, key: &str, value: Json) -> (r: Json)
    ensures
        r@ == set_member(v@, key@, value@),
{
    broadcast use json::object_view;

    match v {
        Json::Obj(members) => Json::object(members.clone().with(key, value)),
        Json::Null => Json::object(Object::new().with(key, value)),
        _ => v.clone(),
    }
}

/// A device with its buttons in the order they are printed.
pub open spec fn ordered(device: JView, data: Seq<JView>) -> JView {
    match json::as_array(device.get("buttons"@)) {
        Some(buttons) => {
            let ids = json::strings(buttons);
            set_member(
                device,
                "buttons"@,
                json::string_array(printed_order(data, ids, ids.len())),
            )
        },
        None => device,
    }
}

fn order_of(data: &Vec<Json>, id: &str) -> (r: u64)
    ensures
        r == button_order(text::views(data@), id@),
{
    let mut i: usize = data.len();
    assert(text::views(data@).len() == data@.len());
    while i > 0
        invariant
            i <= data.len(),
            control_id(text::views(data@), data@.len(), id@) == control_id(
                text::views(data@),
                i as nat,
                id@,
            ),
        decreases i,
    {
        let button = &data[i - 1];
        let named = match json::str_of(button.get("id")) {
            Some(s) => text::same(s, id),
            None => false,
        };
        match json::u64_of(button.get2("metadata", "control_id")) {
            Some(n) => {
                if named {
                    return n;
                }
            },
            None => {},
        }
        i = i - 1;
    }
    u64::MAX
}

fn in_printed_order(data: &Vec<Json>, ids: &Vec<String>) -> (r: Vec<String>)
    ensures
        text::views(r@) == printed_order(text::views(data@), text::views(ids@), ids@.len()),
{
    let mut out: Vec<String> = Vec::new();
    assert(text::views(out@) =~= seq![]);
    let mut n: usize = 0;
    while n < ids.len()
        invariant
            n <= ids.len(),
            text::views(out@) == printed_order(text::views(data@), text::views(ids@), n as nat),
        decreases ids.len() - n,
    {
        let order = order_of(data, ids[n].as_str());
        let mut i: usize = 0;
        while i < out.len() && order_of(data, out[i].as_str()) <= order
            invariant
                i <= out.len(),
                button_slot(text::views(data@), text::views(out@), order, 0) == button_slot(
                    text::views(data@),
                    text::views(out@),
                    order,
                    i as nat,
                ),
            decreases out.len() - i,
        {
            i = i + 1;
        }
        let ghost before = text::views(out@);
        out.insert(i, ids[n].clone());
        assert(text::views(out@) =~= before.insert(i as int, ids@[n as int]@));
        n = n + 1;
    }
    out
}

/// Puts each device's buttons in the order they are printed on it, by `metadata.control_id`.
///
/// A button that the answer does not mention keeps its place at the end rather than being dropped.
pub fn order_buttons(catalog: &mut Vec<Json>, response: Option<&Json>)
    ensures
        text::views(final(catalog)@) == text::views(old(catalog)@).map_values(
            |d: JView| ordered(d, data_or_none(text::view_of(response))),
        ),
{
    let empty: Vec<Json> = Vec::new();
    assert(text::views(empty@) =~= seq![]);
    let data = match data_of(response) {
        Some(data) => data,
        None => &empty,
    };
    let ghost found = data_or_none(text::view_of(response));
    assert(text::views(data@) == found);
    let mut i: usize = 0;
    while i < catalog.len()
        invariant
            i <= catalog.len(),
            catalog.len() == old(catalog).len(),
            text::views(data@) == found,
            forall|k: int| 0 <= k < i ==> (#[trigger] catalog@[k])@ == ordered(old(catalog)@[k]@, found),
            forall|k: int| i <= k < catalog.len() ==> #[trigger] catalog@[k] == old(catalog)@[k],
        decreases catalog.len() - i,
    {
        let buttons = catalog[i].get("buttons");
        match json::array_of(buttons) {
            Some(_) => {
                let ids = json::strings_of(buttons);
                let sorted = in_printed_order(data, &ids);
                assert(text::views(ids@).len() == ids@.len());
                let device = set_in(&catalog[i], "buttons", Json::texts(&sorted));
                catalog.set(i, device);
            },
            None => {},
        }
        i = i + 1;
    }
    assert(text::views(catalog@) =~= text::views(old(catalog)@).map_values(
        |d: JView| ordered(d, data_or_none(text::view_of(response))),
    ));
}

/// A room, reduced to the two things worth keeping.
pub struct Group {
    pub name: String,
    pub children: Vec<String>,
}

pub struct GroupView {
    pub name: Seq<char>,
    pub children: Seq<Seq<char>>,
}

impl View for Group {
    type V = GroupView;

    open spec fn view(&self) -> GroupView {
        GroupView { name: self.name@, children: text::views(self.children@) }
    }
}

/// The ids that the first `n` of a group's children name.
pub open spec fn members_upto(children: Seq<JView>, n: nat) -> Seq<Seq<char>>
    decreases n,
{
    if n == 0 {
        seq![]
    } else {
        let rest = members_upto(children, (n - 1) as nat);
        match json::as_str(children[n - 1].get("rid"@)) {
            Some(rid) => rest.push(rid),
            None => rest,
        }
    }
}

/// A group that has a name.
pub open spec fn group_of(room: JView) -> Option<GroupView> {
    match json::as_str(room.get2("metadata"@, "name"@)) {
        Some(name) => {
            let children = json::list_or_empty(json::as_array(room.get("children"@)));
            Some(GroupView { name, children: members_upto(children, children.len()) })
        },
        None => None,
    }
}

/// Those of the first `n` groups that have a name.
pub open spec fn groups_upto(data: Seq<JView>, n: nat) -> Seq<GroupView>
    decreases n,
{
    if n == 0 {
        seq![]
    } else {
        let rest = groups_upto(data, (n - 1) as nat);
        match group_of(data[n - 1]) {
            Some(g) => rest.push(g),
            None => rest,
        }
    }
}

/// The groups in an answer.
pub open spec fn groups(response: Option<JView>) -> Seq<GroupView> {
    groups_upto(data_or_none(response), data_or_none(response).len())
}

fn members_of(room: &Json) -> (r: Vec<String>)
    ensures
        ({
            let children = json::list_or_empty(json::as_array(room@.get("children"@)));
            text::views(r@) == members_upto(children, children.len())
        }),
{
    let mut out: Vec<String> = Vec::new();
    assert(text::views(out@) =~= seq![]);
    match json::array_of(room.get("children")) {
        Some(children) => {
            let mut i: usize = 0;
            while i < children.len()
                invariant
                    i <= children.len(),
                    text::views(out@) == members_upto(text::views(children@), i as nat),
                decreases children.len() - i,
            {
                broadcast use text::views_push;

                match json::str_of(children[i].get("rid")) {
                    Some(rid) => out.push(rid.to_string()),
                    None => {},
                }
                i = i + 1;
            }
            assert(text::views(children@).len() == children@.len());
        },
        None => {},
    }
    out
}

/// The groups in an answer, rooms or zones alike, that have a name.
pub fn rooms(response: Option<&Json>) -> (r: Vec<Group>)
    ensures
        text::views(r@) == groups(text::view_of(response)),
{
    let mut out: Vec<Group> = Vec::new();
    assert(text::views(out@) =~= seq![]);
    match data_of(response) {
        Some(data) => {
            let mut i: usize = 0;
            while i < data.len()
                invariant
                    i <= data.len(),
                    text::views(out@) == groups_upto(text::views(data@), i as nat),
                decreases data.len() - i,
            {
                broadcast use text::views_push;

                match json::str_of(data[i].get2("metadata", "name")) {
                    Some(name) => {
                        let group = Group { name: name.to_string(), children: members_of(&data[i]) };
                        assert(Some(group@) == group_of(data@[i as int]@));
                        out.push(group);
                    },
                    None => {},
                }
                i = i + 1;
            }
            assert(text::views(data@).len() == data@.len());
        },
        None => {},
    }
    out
}

/// The name of the last of the first `n` groups that holds a child.
pub open spec fn holder(groups: Seq<GroupView>, n: nat, child: Seq<char>) -> Option<Seq<char>>
    decreases n,
{
    if n == 0 {
        None
    } else if groups[n - 1].children.contains(child) {
        Some(groups[n - 1].name)
    } else {
        holder(groups, (n - 1) as nat, child)
    }
}

/// The name of the group that holds the first of the lights, from the `i`-th on, that any group
/// holds.
pub open spec fn light_holder(
    groups: Seq<GroupView>,
    lights: Seq<Seq<char>>,
    i: nat,
) -> Option<Seq<char>>
    decreases lights.len() - i,
{
    if i >= lights.len() {
        None
    } else {
        match holder(groups, groups.len(), lights[i as int]) {
            Some(name) => Some(name),
            None => light_holder(groups, lights, i + 1),
        }
    }
}

/// The group a device is in: the one that holds it, and failing that the one that holds one of
/// its lights.
pub open spec fn place_of(device: JView, groups: Seq<GroupView>) -> Option<Seq<char>> {
    let by_device = match json::as_str(device.get("id"@)) {
        Some(id) => holder(groups, groups.len(), id),
        None => None,
    };
    match by_device {
        Some(name) => Some(name),
        None => light_holder(
            groups,
            json::strings(json::list_or_empty(json::as_array(device.get("lights"@)))),
            0,
        ),
    }
}

/// Whether a device has been filed under a room.
pub open spec fn is_placed(device: JView) -> bool {
    match json::as_str(device.get("room"@)) {
        Some(room) => room.len() > 0,
        None => false,
    }
}

/// A device filed under the group it is in, unless it has a room already.
pub open spec fn placed(device: JView, groups: Seq<GroupView>) -> JView {
    if is_placed(device) {
        device
    } else {
        match place_of(device, groups) {
            Some(name) => set_member(device, "room"@, JView::Str(name)),
            None => device,
        }
    }
}

fn holder_of<'a>(groups: &'a Vec<Group>, child: &str) -> (r: Option<&'a str>)
    ensures
        text::view_of(r) == holder(text::views(groups@), groups@.len(), child@),
{
    let mut i: usize = groups.len();
    while i > 0
        invariant
            i <= groups.len(),
            holder(text::views(groups@), groups@.len(), child@) == holder(
                text::views(groups@),
                i as nat,
                child@,
            ),
        decreases i,
    {
        let group = &groups[i - 1];
        assert(text::views(groups@)[i - 1] == group@);
        if text::has(&group.children, child) {
            return Some(group.name.as_str());
        }
        i = i - 1;
    }
    None
}

fn light_holder_of<'a>(groups: &'a Vec<Group>, lights: &Vec<String>) -> (r: Option<&'a str>)
    ensures
        text::view_of(r) == light_holder(text::views(groups@), text::views(lights@), 0),
{
    assert(text::views(groups@).len() == groups@.len());
    let mut i: usize = 0;
    while i < lights.len()
        invariant
            i <= lights.len(),
            text::views(groups@).len() == groups@.len(),
            light_holder(text::views(groups@), text::views(lights@), 0) == light_holder(
                text::views(groups@),
                text::views(lights@),
                i as nat,
            ),
        decreases lights.len() - i,
    {
        match holder_of(groups, lights[i].as_str()) {
            Some(name) => {
                return Some(name);
            },
            None => {},
        }
        i = i + 1;
    }
    None
}

fn place_in<'a>(device: &Json, groups: &'a Vec<Group>) -> (r: Option<&'a str>)
    ensures
        text::view_of(r) == place_of(device@, text::views(groups@)),
{
    assert(text::views(groups@).len() == groups@.len());
    match json::str_of(device.get("id")) {
        Some(id) => {
            match holder_of(groups, id) {
                Some(name) => {
                    return Some(name);
                },
                None => {},
            }
        },
        None => {},
    }
    light_holder_of(groups, &json::strings_of(device.get("lights")))
}

fn has_room(device: &Json) -> (r: bool)
    ensures
        r == is_placed(device@),
{
    match json::str_of(device.get("room")) {
        Some(room) => !text::is_empty(room),
        None => false,
    }
}

/// Files each device under the group holding it.
///
/// A room's children are devices, and a zone's are the light services inside them, so a device is
/// claimed by either its own id or by any of the lights it owns. A room set first stays: this is
/// called once per grouping resource, and the room a device is in is a better answer than a zone
/// it also belongs to.
pub fn assign_rooms(catalog: &mut Vec<Json>, response: Option<&Json>)
    ensures
        text::views(final(catalog)@) == text::views(old(catalog)@).map_values(
            |d: JView| placed(d, groups(text::view_of(response))),
        ),
{
    let found = rooms(response);
    let ghost all = groups(text::view_of(response));
    let mut i: usize = 0;
    while i < catalog.len()
        invariant
            i <= catalog.len(),
            catalog.len() == old(catalog).len(),
            text::views(found@) == all,
            forall|k: int| 0 <= k < i ==> (#[trigger] catalog@[k])@ == placed(old(catalog)@[k]@, all),
            forall|k: int| i <= k < catalog.len() ==> #[trigger] catalog@[k] == old(catalog)@[k],
        decreases catalog.len() - i,
    {
        if !has_room(&catalog[i]) {
            match place_in(&catalog[i], &found) {
                Some(name) => {
                    let device = set_in(&catalog[i], "room", Json::text(name));
                    catalog.set(i, device);
                },
                None => {},
            }
        }
        i = i + 1;
    }
    assert(text::views(catalog@) =~= text::views(old(catalog)@).map_values(
        |d: JView| placed(d, groups(text::view_of(response))),
    ));
}

/// Names with the first `n` of more names added, those present winning.
pub open spec fn merged(names: Members, more: Members, n: nat) -> Members
    decreases n,
{
    if n == 0 {
        names
    } else {
        let rest = merged(names, more, (n - 1) as nat);
        let (id, name) = more[n - 1];
        if json::lookup(rest, id) is Some {
            rest
        } else {
            json::put(rest, id, name)
        }
    }
}

/// The members of an object, or none.
pub open spec fn members_or_none(v: Option<JView>) -> Members {
    match json::as_object(v) {
        Some(m) => m,
        None => seq![],
    }
}

/// Two `{id: name}` maps into one, with the first winning.
///
/// Rooms and zones are both groupings a person made and both are offered as places to file a
/// device; where an id appears in both, the room is the one that says where the thing is.
pub fn merge_names(first: Option<&Json>, second: Json) -> (r: Json)
    ensures
        r@ == JView::Obj(
            merged(
                members_or_none(text::view_of(first)),
                members_or_none(Some(second@)),
                members_or_none(Some(second@)).len(),
            ),
        ),
{
    let mut out = match json::object_of(first) {
        Some(o) => o.clone(),
        None => Object::new(),
    };
    let ghost start = out@;
    match json::object_of(Some(&second)) {
        Some(more) => {
            let mut i: usize = 0;
            while i < more.entries.len()
                invariant
                    i <= more.entries.len(),
                    out@ == merged(start, more@, i as nat),
                decreases more.entries.len() - i,
            {
                let entry = &more.entries[i];
                assert(more@[i as int] == (entry.0@, entry.1@));
                if !out.contains_key(entry.0.as_str()) {
                    out.insert(entry.0.as_str(), entry.1.clone());
                }
                i = i + 1;
            }
            assert(more@.len() == more.entries@.len());
        },
        None => {},
    }
    Json::object(out)
}

/// The names of the first `n` groups, by id.
pub open spec fn names_upto(data: Seq<JView>, n: nat) -> Members
    decreases n,
{
    if n == 0 {
        seq![]
    } else {
        let rest = names_upto(data, (n - 1) as nat);
        let room = data[n - 1];
        match (json::as_str(room.get("id"@)), json::as_str(room.get2("metadata"@, "name"@))) {
            (Some(id), Some(name)) => json::put(rest, id, JView::Str(name)),
            _ => rest,
        }
    }
}

/// Group resource id to group name, as a plain object so it can ride in the setup state.
pub fn room_names(response: Option<&Json>) -> (r: Json)
    ensures
        r@ == JView::Obj(
            names_upto(
                data_or_none(text::view_of(response)),
                data_or_none(text::view_of(response)).len(),
            ),
        ),
{
    let mut out = Object::new();
    match data_of(response) {
        Some(data) => {
            let mut i: usize = 0;
            while i < data.len()
                invariant
                    i <= data.len(),
                    out@ == names_upto(text::views(data@), i as nat),
                decreases data.len() - i,
            {
                let id = json::str_of(data[i].get("id"));
                let name = json::str_of(data[i].get2("metadata", "name"));
                match (id, name) {
                    (Some(id), Some(name)) => {
                        out.insert(id, Json::text(name));
                    },
                    _ => {},
                }
                i = i + 1;
            }
            assert(text::views(data@).len() == data@.len());
        },
        None => {},
    }
    Json::object(out)
}

/// Whether a device owns a light.
pub open spec fn owns_light(device: JView, light: Seq<char>) -> bool {
    match json::as_array(device.get("lights"@)) {
        Some(lights) => json::strings(lights).contains(light),
        None => false,
    }
}

/// The room of the first device, from the `i`-th on, that owns a light and has a room.
pub open spec fn light_room(catalog: Seq<JView>, light: Seq<char>, i: nat) -> Option<Seq<char>>
    decreases catalog.len() - i,
{
    if i >= catalog.len() {
        None
    } else {
        let room = json::as_str(catalog[i as int].get("room"@));
        if owns_light(catalog[i as int], light) && room is Some {
            room
        } else {
            light_room(catalog, light, i + 1)
        }
    }
}

/// The room a bulb's light service belongs to, found through the device that owns it.
pub fn room_of_light(catalog: &Vec<Json>, light: &str) -> (r: Option<String>)
    ensures
        text::view_of(r) == light_room(text::views(catalog@), light@, 0),
{
    let mut i: usize = 0;
    while i < catalog.len()
        invariant
            i <= catalog.len(),
            light_room(text::views(catalog@), light@, 0) == light_room(
                text::views(catalog@),
                light@,
                i as nat,
            ),
        decreases catalog.len() - i,
    {
        let device = &catalog[i];
        let lights = json::strings_of(device.get("lights"));
        if text::has(&lights, light) {
            match json::str_of(device.get("room")) {
                Some(room) => {
                    return Some(room.to_string());
                },
                None => {},
            }
        }
        i = i + 1;
    }
    None
}

} // verus!
