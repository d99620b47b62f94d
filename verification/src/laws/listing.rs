//! Laws of listings: what is kept of each device, room and button that the bridge lists.

use vstd::prelude::*;
use crate::behaviour;
use crate::catalog;
use crate::catalog::GroupView;
use crate::json;
use crate::json::{JView, Members, NumberView};
use crate::laws::catalog as order;

verus! {

/// The texts among some values, in their order.
pub open spec fn texts(items: Seq<JView>) -> Seq<Seq<char>> {
    items.filter(|v: JView| v is Str).map_values(|v: JView| v->Str_0)
}

proof fn texts_upto(items: Seq<JView>, n: nat)
    requires
        n <= items.len(),
    ensures
        json::strings_upto(items, n) == texts(items.take(n as int)),
    decreases n,
{
    reveal(Seq::filter);
    let is = |v: JView| v is Str;
    let get = |v: JView| v->Str_0;
    if n == 0 {
        assert(texts(items.take(0)) =~= seq![]);
    } else {
        texts_upto(items, (n - 1) as nat);
        assert(items.take(n as int).drop_last() =~= items.take(n - 1));
        let before = items.take(n - 1).filter(is);
        assert(before.push(items[n - 1]).map_values(get) =~= before.map_values(get).push(
            get(items[n - 1]),
        ));
    }
}

/// The texts of an array are those among its values, in their order, and nothing else.
pub proof fn texts_of_an_array(items: Seq<JView>)
    ensures
        json::strings(items) == texts(items),
{
    texts_upto(items, items.len());
    assert(items.take(items.len() as int) =~= items);
}

/// Whether a service is of a kind and has an id.
pub open spec fn is_service(service: JView, kind: Seq<char>) -> bool {
    service.get("rtype"@) == Some(JView::Str(kind)) && (service.get("rid"@) matches Some(
        JView::Str(_),
    ))
}

/// The ids of the services of a kind, in their order.
pub open spec fn services(list: Seq<JView>, kind: Seq<char>) -> Seq<Seq<char>> {
    list.filter(|s: JView| is_service(s, kind)).map_values(|s: JView| s.get("rid"@)->0->Str_0)
}

proof fn services_upto(list: Seq<JView>, n: nat, kind: Seq<char>)
    requires
        n <= list.len(),
    ensures
        catalog::services_of_type(list, n, kind) == services(list.take(n as int), kind),
    decreases n,
{
    reveal(Seq::filter);
    let is = |s: JView| is_service(s, kind);
    let get = |s: JView| s.get("rid"@)->0->Str_0;
    if n == 0 {
        assert(services(list.take(0), kind) =~= seq![]);
    } else {
        services_upto(list, (n - 1) as nat, kind);
        assert(list.take(n as int).drop_last() =~= list.take(n - 1));
        let before = list.take(n - 1).filter(is);
        assert(before.push(list[n - 1]).map_values(get) =~= before.map_values(get).push(
            get(list[n - 1]),
        ));
    }
}

proof fn services_are(list: Seq<JView>, kind: Seq<char>)
    ensures
        catalog::of_type(list, kind) == services(list, kind),
{
    services_upto(list, list.len(), kind);
    assert(list.take(list.len() as int) =~= list);
}

/// Whether anything is kept of a device: it has services, and one of them is a button, a motion
/// sensor or a light.
pub open spec fn is_kept(device: JView) -> bool {
    device.get("services"@) matches Some(JView::Arr(list)) && (services(list, "button"@).len() > 0
        || services(list, "motion"@).len() > 0 || services(list, "light"@).len() > 0)
}

/// The text under two keys in turn, or another where there is none.
pub open spec fn text_or(device: JView, a: Seq<char>, b: Seq<char>, other: Seq<char>) -> JView {
    match device.get2(a, b) {
        Some(JView::Str(s)) => JView::Str(s),
        _ => JView::Str(other),
    }
}

/// All of some ids, where there are any.
pub open spec fn all_of(ids: Seq<Seq<char>>) -> Option<JView> {
    if ids.len() > 0 {
        Some(JView::Arr(ids.map_values(|id: Seq<char>| JView::Str(id))))
    } else {
        None
    }
}

/// The first of some ids, where there are any.
pub open spec fn first_of(ids: Seq<Seq<char>>) -> Option<JView> {
    if ids.len() > 0 {
        Some(JView::Str(ids[0]))
    } else {
        None
    }
}

/// Whether an entry is what is kept of a device: its id, its names, and the ids of its services by
/// kind, all of its lights and buttons and the first of every other.
pub open spec fn is_entry(entry: JView, device: JView) -> bool {
    let list = device.get("services"@)->0->Arr_0;
    &&& entry.get("id"@) == Some(
        match device.get("id"@) {
            Some(JView::Str(id)) => JView::Str(id),
            _ => JView::Str(""@),
        },
    )
    &&& entry.get("name"@) == Some(text_or(device, "metadata"@, "name"@, "Hue device"@))
    &&& entry.get("model"@) == Some(text_or(device, "product_data"@, "model_id"@, ""@))
    &&& entry.get("product"@) == Some(text_or(device, "product_data"@, "product_name"@, ""@))
    &&& entry.get("lights"@) == all_of(services(list, "light"@))
    &&& entry.get("buttons"@) == all_of(services(list, "button"@))
    &&& entry.get("motion"@) == first_of(services(list, "motion"@))
    &&& entry.get("temperature"@) == first_of(services(list, "temperature"@))
    &&& entry.get("light_level"@) == first_of(services(list, "light_level"@))
    &&& entry.get("rotary"@) == first_of(services(list, "relative_rotary"@))
    &&& entry.get("power"@) == first_of(services(list, "device_power"@))
    &&& entry.get("room"@) is None
    &&& entry.get("controls"@) is None
}

proof fn entry_keys()
    ensures
        "id"@.len() == 2,
        "lights"@.len() == 6 && "lights"@[0] == 'l',
        "name"@.len() == 4 && "name"@[0] == 'n',
        "model"@.len() == 5 && "model"@[0] == 'm',
        "product"@.len() == 7 && "product"@[0] == 'p',
        "buttons"@.len() == 7 && "buttons"@[0] == 'b',
        "motion"@.len() == 6 && "motion"@[0] == 'm',
        "temperature"@.len() == 11 && "temperature"@[0] == 't',
        "light_level"@.len() == 11 && "light_level"@[0] == 'l',
        "rotary"@.len() == 6 && "rotary"@[0] == 'r',
        "power"@.len() == 5 && "power"@[0] == 'p',
        "room"@.len() == 4 && "room"@[0] == 'r',
        "controls"@.len() == 8,
{
    reveal_strlit("id");
    reveal_strlit("lights");
    reveal_strlit("name");
    reveal_strlit("model");
    reveal_strlit("product");
    reveal_strlit("buttons");
    reveal_strlit("motion");
    reveal_strlit("temperature");
    reveal_strlit("light_level");
    reveal_strlit("rotary");
    reveal_strlit("power");
    reveal_strlit("room");
    reveal_strlit("controls");
}

proof fn list_is_put(entry: Members, key: Seq<char>, ids: Seq<Seq<char>>, other: Seq<char>)
    ensures
        json::lookup(catalog::put_list(entry, key, ids), other) == if other == key && ids.len()
            > 0 {
            all_of(ids)
        } else {
            json::lookup(entry, other)
        },
{
    broadcast use json::lookup_put;

    assert(ids.map_values(|id: Seq<char>| JView::Str(id)) =~= ids.map_values(
        |s: Seq<char>| JView::Str(s),
    ));
}

proof fn first_is_put(entry: Members, key: Seq<char>, ids: Seq<Seq<char>>, other: Seq<char>)
    ensures
        json::lookup(catalog::put_first(entry, key, ids), other) == if other == key && ids.len()
            > 0 {
            first_of(ids)
        } else {
            json::lookup(entry, other)
        },
{
    broadcast use json::lookup_put;

}

proof fn entry_lookup(device: JView, list: Seq<JView>, key: Seq<char>)
    ensures
        ({
            let found = json::lookup(catalog::compact_entry(device, list), key);
            let named = |kind: Seq<char>| catalog::of_type(list, kind);
            if key == "power"@ {
                found == first_of(named("device_power"@))
            } else if key == "rotary"@ {
                found == first_of(named("relative_rotary"@))
            } else if key == "light_level"@ {
                found == first_of(named("light_level"@))
            } else if key == "temperature"@ {
                found == first_of(named("temperature"@))
            } else if key == "motion"@ {
                found == first_of(named("motion"@))
            } else if key == "buttons"@ {
                found == all_of(named("button"@))
            } else if key == "product"@ {
                found == Some(text_or(device, "product_data"@, "product_name"@, ""@))
            } else if key == "model"@ {
                found == Some(text_or(device, "product_data"@, "model_id"@, ""@))
            } else if key == "name"@ {
                found == Some(text_or(device, "metadata"@, "name"@, "Hue device"@))
            } else if key == "lights"@ {
                found == all_of(named("light"@))
            } else if key == "id"@ {
                found == Some(
                    match device.get("id"@) {
                        Some(JView::Str(id)) => JView::Str(id),
                        _ => JView::Str(""@),
                    },
                )
            } else {
                found is None
            }
        }),
{
    let a = json::one("id"@, JView::Str(json::str_or(json::as_str(device.get("id"@)), ""@)));
    let b = catalog::put_list(a, "lights"@, catalog::of_type(list, "light"@));
    let name = catalog::device_text(device, "metadata"@, "name"@, "Hue device"@);
    let c = json::put(b, "name"@, name);
    let model = catalog::device_text(device, "product_data"@, "model_id"@, ""@);
    let d = json::put(c, "model"@, model);
    let product = catalog::device_text(device, "product_data"@, "product_name"@, ""@);
    let e = json::put(d, "product"@, product);
    let f = catalog::put_list(e, "buttons"@, catalog::of_type(list, "button"@));
    let g = catalog::put_first(f, "motion"@, catalog::of_type(list, "motion"@));
    let h = catalog::put_first(g, "temperature"@, catalog::of_type(list, "temperature"@));
    let i = catalog::put_first(h, "light_level"@, catalog::of_type(list, "light_level"@));
    let j = catalog::put_first(i, "rotary"@, catalog::of_type(list, "relative_rotary"@));
    entry_keys();
    json::lookup_put(
        seq![],
        "id"@,
        JView::Str(json::str_or(json::as_str(device.get("id"@)), ""@)),
        key,
    );
    assert(json::lookup(Members::empty(), key) is None);
    list_is_put(a, "lights"@, catalog::of_type(list, "light"@), key);
    json::lookup_put(b, "name"@, name, key);
    json::lookup_put(c, "model"@, model, key);
    json::lookup_put(d, "product"@, product, key);
    list_is_put(e, "buttons"@, catalog::of_type(list, "button"@), key);
    first_is_put(f, "motion"@, catalog::of_type(list, "motion"@), key);
    first_is_put(g, "temperature"@, catalog::of_type(list, "temperature"@), key);
    first_is_put(h, "light_level"@, catalog::of_type(list, "light_level"@), key);
    first_is_put(i, "rotary"@, catalog::of_type(list, "relative_rotary"@), key);
    first_is_put(j, "power"@, catalog::of_type(list, "device_power"@), key);
}

/// What is kept of a device is its id, its names, and the ids of its services by kind; nothing is
/// kept of one without a button, a motion sensor or a light.
pub proof fn a_device_is_kept_by_its_services(device: JView)
    ensures
        catalog::compact_device(device) is Some <==> is_kept(device),
        catalog::compact_device(device) matches Some(entry) ==> is_entry(entry, device),
{
    match device.get("services"@) {
        Some(JView::Arr(list)) => {
            services_are(list, "button"@);
            services_are(list, "motion"@);
            services_are(list, "light"@);
            services_are(list, "temperature"@);
            services_are(list, "light_level"@);
            services_are(list, "relative_rotary"@);
            services_are(list, "device_power"@);
            entry_keys();
            entry_lookup(device, list, "id"@);
            entry_lookup(device, list, "lights"@);
            entry_lookup(device, list, "name"@);
            entry_lookup(device, list, "model"@);
            entry_lookup(device, list, "product"@);
            entry_lookup(device, list, "buttons"@);
            entry_lookup(device, list, "motion"@);
            entry_lookup(device, list, "temperature"@);
            entry_lookup(device, list, "light_level"@);
            entry_lookup(device, list, "rotary"@);
            entry_lookup(device, list, "power"@);
            entry_lookup(device, list, "room"@);
            entry_lookup(device, list, "controls"@);
        },
        _ => {},
    }
}

/// Every device that anything is kept of is in the catalog, in the order the bridge lists them, and
/// no other.
pub proof fn every_kept_device_is_listed(data: Seq<JView>, n: nat)
    requires
        n <= data.len(),
    ensures
        catalog::compacted(data, n) == data.take(n as int).filter(
            |d: JView| is_kept(d),
        ).map_values(|d: JView| catalog::compact_device(d)->0),
    decreases n,
{
    reveal(Seq::filter);
    let kept = |d: JView| is_kept(d);
    let made = |d: JView| catalog::compact_device(d)->0;
    if n == 0 {
        assert(data.take(0).filter(kept).map_values(made) =~= seq![]);
    } else {
        every_kept_device_is_listed(data, (n - 1) as nat);
        a_device_is_kept_by_its_services(data[n - 1]);
        assert(data.take(n as int).drop_last() =~= data.take(n - 1));
        let before = data.take(n - 1).filter(kept);
        assert(before.push(data[n - 1]).map_values(made) =~= before.map_values(made).push(
            made(data[n - 1]),
        ));
    }
}

/// Whether the resource at `k` is the last that gives a button a number.
pub open spec fn numbers(data: Seq<JView>, k: int, id: Seq<char>, number: u64) -> bool {
    &&& 0 <= k < data.len()
    &&& data[k].get("id"@) == Some(JView::Str(id))
    &&& data[k].get2("metadata"@, "control_id"@) == Some(JView::Num(NumberView::PosInt(number)))
    &&& forall|j: int| k < j < data.len() ==> !is_numbering(#[trigger] data[j], id)
}

/// Whether a resource gives a button a number.
pub open spec fn is_numbering(resource: JView, id: Seq<char>) -> bool {
    resource.get("id"@) == Some(JView::Str(id)) && (resource.get2("metadata"@, "control_id"@)
        matches Some(JView::Num(NumberView::PosInt(_))))
}

proof fn number_is_found(data: Seq<JView>, n: nat, id: Seq<char>) -> (k: int)
    requires
        n <= data.len(),
        forall|j: int| n <= j < data.len() ==> !is_numbering(#[trigger] data[j], id),
    ensures
        catalog::control_id(data, n, id) is Some ==> numbers(
            data,
            k,
            id,
            catalog::control_id(data, n, id)->0,
        ),
        catalog::control_id(data, n, id) is None ==> forall|j: int|
            0 <= j < data.len() ==> !is_numbering(#[trigger] data[j], id),
    decreases n,
{
    if n == 0 {
        0
    } else if is_numbering(data[n - 1], id) {
        n - 1
    } else {
        number_is_found(data, (n - 1) as nat, id)
    }
}

/// The place of a button is the number printed on it, as the bridge says last, and the end where it
/// says none.
pub proof fn a_button_comes_by_its_number(data: Seq<JView>, k: int, id: Seq<char>, number: u64)
    ensures
        numbers(data, k, id, number) ==> catalog::button_order(data, id) == number,
        (forall|j: int| 0 <= j < data.len() ==> !is_numbering(#[trigger] data[j], id))
            ==> catalog::button_order(data, id) == u64::MAX,
{
    let i = number_is_found(data, data.len(), id);
    if numbers(data, k, id, number) {
        assert(is_numbering(data[k], id));
        if i < k {
            assert(!is_numbering(data[k], id));
        } else if k < i {
            assert(is_numbering(data[i], id));
        }
    }
    if forall|j: int| 0 <= j < data.len() ==> !is_numbering(#[trigger] data[j], id) {
        if catalog::control_id(data, data.len(), id) is Some {
            assert(is_numbering(data[i], id));
        }
    }
}

/// The buttons of a device, once ordered, are the same buttons, in the order of their places, and
/// those alike in the order they were in.
pub proof fn a_device_has_its_buttons_in_order(
    device: JView,
    data: Seq<JView>,
    buttons: Seq<JView>,
    place: u64,
)
    requires
        device.get("buttons"@) == Some(JView::Arr(buttons)),
    ensures
        exists|ids: Seq<Seq<char>>|
            catalog::ordered(device, data).get("buttons"@) == Some(
                JView::Arr(ids.map_values(|id: Seq<char>| JView::Str(id))),
            ) && ids.to_multiset() == texts(buttons).to_multiset() && #[trigger] order::in_order(
                data,
                ids,
            ) && order::coming_at(data, ids, place) == order::coming_at(
                data,
                texts(buttons),
                place,
            ),
{
    broadcast use json::lookup_put;

    texts_of_an_array(buttons);
    let ids = json::strings(buttons);
    let list = catalog::printed_order(data, ids, ids.len());
    order::buttons_are_ordered(data, ids, place);
    assert(list.map_values(|id: Seq<char>| JView::Str(id)) =~= list.map_values(
        |s: Seq<char>| JView::Str(s),
    ));
    assert(order::in_order(data, list));
}

/// A device without buttons is left as it is when buttons are ordered.
pub proof fn a_device_without_buttons_stays(device: JView, data: Seq<JView>)
    requires
        !(device.get("buttons"@) matches Some(JView::Arr(_))),
    ensures
        catalog::ordered(device, data) == device,
{
}

/// The ids of what a group lists, in their order.
pub open spec fn listed(room: JView) -> Seq<Seq<char>> {
    match room.get("children"@) {
        Some(JView::Arr(children)) => children.filter(
            |c: JView| c.get("rid"@) is Some && c.get("rid"@)->0 is Str,
        ).map_values(|c: JView| c.get("rid"@)->0->Str_0),
        _ => seq![],
    }
}

proof fn listed_upto(children: Seq<JView>, n: nat)
    requires
        n <= children.len(),
    ensures
        catalog::members_upto(children, n) == children.take(n as int).filter(
            |c: JView| c.get("rid"@) is Some && c.get("rid"@)->0 is Str,
        ).map_values(|c: JView| c.get("rid"@)->0->Str_0),
    decreases n,
{
    reveal(Seq::filter);
    let is = |c: JView| c.get("rid"@) is Some && c.get("rid"@)->0 is Str;
    let get = |c: JView| c.get("rid"@)->0->Str_0;
    if n == 0 {
        assert(children.take(0).filter(is).map_values(get) =~= seq![]);
    } else {
        listed_upto(children, (n - 1) as nat);
        assert(children.take(n as int).drop_last() =~= children.take(n - 1));
        let before = children.take(n - 1).filter(is);
        assert(before.push(children[n - 1]).map_values(get) =~= before.map_values(get).push(
            get(children[n - 1]),
        ));
    }
}

/// Whether a group has a name.
pub open spec fn is_named(room: JView) -> bool {
    room.get2("metadata"@, "name"@) matches Some(JView::Str(_))
}

/// A group as it is kept: its name and what it lists.
pub open spec fn kept_group(room: JView) -> GroupView {
    GroupView { name: room.get2("metadata"@, "name"@)->0->Str_0, children: listed(room) }
}

proof fn group_is_kept(room: JView)
    ensures
        catalog::group_of(room) is Some <==> is_named(room),
        is_named(room) ==> catalog::group_of(room) == Some(kept_group(room)),
{
    match room.get("children"@) {
        Some(JView::Arr(children)) => {
            listed_upto(children, children.len());
            assert(children.take(children.len() as int) =~= children);
        },
        _ => {
            assert(catalog::members_upto(seq![], 0) =~= seq![]);
        },
    }
}

/// The groups of an answer are those with a name, in their order, each with what it lists.
pub proof fn every_named_group_is_kept(data: Seq<JView>, n: nat)
    requires
        n <= data.len(),
    ensures
        catalog::groups_upto(data, n) == data.take(n as int).filter(
            |r: JView| is_named(r),
        ).map_values(|r: JView| kept_group(r)),
    decreases n,
{
    reveal(Seq::filter);
    let is = |r: JView| is_named(r);
    let get = |r: JView| kept_group(r);
    if n == 0 {
        assert(data.take(0).filter(is).map_values(get) =~= seq![]);
    } else {
        every_named_group_is_kept(data, (n - 1) as nat);
        group_is_kept(data[n - 1]);
        assert(data.take(n as int).drop_last() =~= data.take(n - 1));
        let before = data.take(n - 1).filter(is);
        assert(before.push(data[n - 1]).map_values(get) =~= before.map_values(get).push(
            get(data[n - 1]),
        ));
    }
}

/// Whether the group at `k` is the last that lists something.
pub open spec fn holds(groups: Seq<GroupView>, k: int, child: Seq<char>) -> bool {
    &&& 0 <= k < groups.len()
    &&& groups[k].children.contains(child)
    &&& forall|j: int| k < j < groups.len() ==> !(#[trigger] groups[j]).children.contains(child)
}

/// Whether no group lists something.
pub open spec fn is_nowhere(groups: Seq<GroupView>, child: Seq<char>) -> bool {
    forall|j: int| 0 <= j < groups.len() ==> !(#[trigger] groups[j]).children.contains(child)
}

proof fn holder_is_last(groups: Seq<GroupView>, n: nat, child: Seq<char>)
    requires
        n <= groups.len(),
    ensures
        forall|k: int| #[trigger] holds(groups, k, child) && k < n ==> catalog::holder(
            groups,
            n,
            child,
        ) == Some(groups[k].name),
        is_nowhere(groups, child) ==> catalog::holder(groups, n, child) is None,
    decreases n,
{
    if n > 0 {
        holder_is_last(groups, (n - 1) as nat, child);
        assert forall|k: int| #[trigger] holds(groups, k, child) && k < n implies catalog::holder(
            groups,
            n,
            child,
        ) == Some(groups[k].name) by {
            if k < n - 1 {
                assert(!groups[n - 1].children.contains(child));
            }
        }
        if is_nowhere(groups, child) {
            assert(!groups[n - 1].children.contains(child));
        }
    }
}

proof fn light_holder_is_first(
    groups: Seq<GroupView>,
    lights: Seq<Seq<char>>,
    i: int,
    k: int,
    from: nat,
)
    requires
        0 <= i <= lights.len(),
        from <= i,
        i < lights.len() ==> holds(groups, k, lights[i]),
        forall|j: int| 0 <= j < i ==> is_nowhere(groups, #[trigger] lights[j]),
    ensures
        catalog::light_holder(groups, lights, from) == if i < lights.len() {
            Some(groups[k].name)
        } else {
            None
        },
    decreases i - from,
{
    if from < lights.len() {
        holder_is_last(groups, groups.len(), lights[from as int]);
        if from < i {
            assert(is_nowhere(groups, lights[from as int]));
            light_holder_is_first(groups, lights, i, k, from + 1);
        } else {
            assert(holds(groups, k, lights[i]));
        }
    }
}

/// The lights of a device, in their order.
pub open spec fn lights_of(device: JView) -> Seq<Seq<char>> {
    match device.get("lights"@) {
        Some(JView::Arr(lights)) => texts(lights),
        _ => seq![],
    }
}

/// Whether a device has a room already.
pub open spec fn has_room(device: JView) -> bool {
    device.get("room"@) matches Some(JView::Str(room)) && room.len() > 0
}

/// A device that has a room keeps it. Any other is put into the last group that lists it, or else
/// into the last group that lists the first of its lights that any group lists; and where none
/// does, it stays as it is.
pub proof fn a_device_is_put_where_it_is_listed(
    device: JView,
    groups: Seq<GroupView>,
    id: Seq<char>,
    i: int,
    k: int,
)
    requires
        device is Obj,
        device.get("id"@) == Some(JView::Str(id)),
    ensures
        ({
            let after = catalog::placed(device, groups);
            let lights = lights_of(device);
            &&& has_room(device) ==> after == device
            &&& !has_room(device) && holds(groups, k, id) ==> after.get("room"@) == Some(
                JView::Str(groups[k].name),
            )
            &&& !has_room(device) && is_nowhere(groups, id) && 0 <= i < lights.len() && holds(
                groups,
                k,
                lights[i],
            ) && (forall|j: int| 0 <= j < i ==> is_nowhere(groups, #[trigger] lights[j]))
                ==> after.get("room"@) == Some(JView::Str(groups[k].name))
            &&& is_nowhere(groups, id) && (forall|j: int|
                0 <= j < lights.len() ==> is_nowhere(groups, #[trigger] lights[j])) ==> after
                == device
        }),
{
    broadcast use json::lookup_put;

    let lights = lights_of(device);
    match device.get("lights"@) {
        Some(JView::Arr(items)) => {
            texts_of_an_array(items);
        },
        _ => {
            assert(json::strings(seq![]) =~= seq![]);
        },
    }
    holder_is_last(groups, groups.len(), id);
    if 0 <= i < lights.len() && holds(groups, k, lights[i]) && (forall|j: int|
        0 <= j < i ==> is_nowhere(groups, #[trigger] lights[j])) {
        light_holder_is_first(groups, lights, i, k, 0);
    }
    if forall|j: int| 0 <= j < lights.len() ==> is_nowhere(groups, #[trigger] lights[j]) {
        light_holder_is_first(groups, lights, lights.len() as int, k, 0);
    }
}

/// Whether the room at `k` is the last with an id that has a name.
pub open spec fn is_last_named(data: Seq<JView>, n: nat, k: int, id: Seq<char>) -> bool {
    &&& 0 <= k < n
    &&& data[k].get("id"@) == Some(JView::Str(id))
    &&& is_named(data[k])
    &&& forall|j: int|
        k < j < n ==> (#[trigger] data[j]).get("id"@) != Some(JView::Str(id)) || !is_named(data[j])
}

/// The name of a room is found by its id: the one the bridge says last; and no id is found that has
/// none.
pub proof fn a_room_is_named_by_its_id(data: Seq<JView>, n: nat, k: int, id: Seq<char>)
    requires
        n <= data.len(),
    ensures
        is_last_named(data, n, k, id) ==> json::lookup(catalog::names_upto(data, n), id)
            == data[k].get2("metadata"@, "name"@),
        (forall|j: int|
            0 <= j < n ==> (#[trigger] data[j]).get("id"@) != Some(JView::Str(id)) || !is_named(
                data[j],
            )) ==> json::lookup(catalog::names_upto(data, n), id) is None,
    decreases n,
{
    broadcast use json::lookup_put;

    if n > 0 {
        a_room_is_named_by_its_id(data, (n - 1) as nat, k, id);
        if is_last_named(data, n, k, id) && k < n - 1 {
            assert(data[n - 1].get("id"@) != Some(JView::Str(id)) || !is_named(data[n - 1]));
            assert(is_last_named(data, (n - 1) as nat, k, id));
        }
        if forall|j: int|
            0 <= j < n ==> (#[trigger] data[j]).get("id"@) != Some(JView::Str(id)) || !is_named(
                data[j],
            ) {
            assert(data[n - 1].get("id"@) != Some(JView::Str(id)) || !is_named(data[n - 1]));
        }
    }
}

/// Whether a device owns a light and has a room.
pub open spec fn has_light(device: JView, light: Seq<char>) -> bool {
    (device.get("lights"@) matches Some(JView::Arr(lights)) && lights.contains(JView::Str(light)))
        && (device.get("room"@) matches Some(JView::Str(_)))
}

proof fn ownership_is_listed(device: JView, light: Seq<char>)
    ensures
        catalog::owns_light(device, light) <==> (device.get("lights"@) matches Some(
            JView::Arr(lights),
        ) && lights.contains(JView::Str(light))),
{
    match device.get("lights"@) {
        Some(JView::Arr(lights)) => {
            crate::laws::publish::texts_are_those_there(lights, lights.len(), light);
            assert(lights.take(lights.len() as int) =~= lights);
        },
        _ => {},
    }
}

/// The room of a light is that of the first device that owns it and has one.
pub proof fn a_light_is_in_its_owners_room(catalog: Seq<JView>, light: Seq<char>, k: int, i: nat)
    requires
        i <= k <= catalog.len(),
        k < catalog.len() ==> has_light(catalog[k], light),
        forall|j: int| i <= j < k ==> !has_light(#[trigger] catalog[j], light),
    ensures
        catalog::light_room(catalog, light, i) == if k < catalog.len() {
            Some(catalog[k].get("room"@)->0->Str_0)
        } else {
            None
        },
    decreases k - i,
{
    if i < catalog.len() {
        ownership_is_listed(catalog[i as int], light);
        if i < k {
            assert(!has_light(catalog[i as int], light));
            a_light_is_in_its_owners_room(catalog, light, k, i + 1);
        }
    }
}

/// The references inside a list are those inside its items, one item after the other.
pub proof fn references_of_a_list(items: Seq<JView>)
    ensures
        behaviour::references(JView::Arr(items)) == items.map_values(
            |v: JView| behaviour::references(v),
        ).flatten(),
{
    list_references_upto(items, items.len());
    assert(items.take(items.len() as int) =~= items);
}

proof fn list_references_upto(items: Seq<JView>, n: nat)
    requires
        n <= items.len(),
    ensures
        behaviour::references_upto(JView::Arr(items), n) == items.take(n as int).map_values(
            |v: JView| behaviour::references(v),
        ).flatten(),
    decreases n,
{
    let refs = |v: JView| behaviour::references(v);
    let all = items.take(n as int).map_values(refs);
    all.lemma_flatten_and_flatten_alt_are_equivalent();
    if n > 0 {
        list_references_upto(items, (n - 1) as nat);
        let before = items.take(n - 1).map_values(refs);
        before.lemma_flatten_and_flatten_alt_are_equivalent();
        assert(all.drop_last() =~= before);
        assert(all.last() == behaviour::references(items[n - 1]));
    }
}

/// The references inside an object are its own, where it has an id and a kind, and then those
/// inside its values, one after the other.
pub proof fn references_of_an_object(members: Members)
    ensures
        behaviour::references(JView::Obj(members)) == match (
            json::lookup(members, "rid"@),
            json::lookup(members, "rtype"@),
        ) {
            (Some(JView::Str(rid)), Some(JView::Str(rtype))) => seq![(rid, rtype)],
            _ => seq![],
        } + members.map_values(|e: (Seq<char>, JView)| behaviour::references(e.1)).flatten(),
{
    object_references_upto(members, members.len());
    assert(members.take(members.len() as int) =~= members);
}

proof fn object_references_upto(members: Members, n: nat)
    requires
        n <= members.len(),
    ensures
        behaviour::references_upto(JView::Obj(members), n) == match (
            json::lookup(members, "rid"@),
            json::lookup(members, "rtype"@),
        ) {
            (Some(JView::Str(rid)), Some(JView::Str(rtype))) => seq![(rid, rtype)],
            _ => seq![],
        } + members.take(n as int).map_values(
            |e: (Seq<char>, JView)| behaviour::references(e.1),
        ).flatten(),
    decreases n,
{
    let refs = |e: (Seq<char>, JView)| behaviour::references(e.1);
    let own = match (json::lookup(members, "rid"@), json::lookup(members, "rtype"@)) {
        (Some(JView::Str(rid)), Some(JView::Str(rtype))) => seq![(rid, rtype)],
        _ => seq![],
    };
    let all = members.take(n as int).map_values(refs);
    all.lemma_flatten_and_flatten_alt_are_equivalent();
    if n > 0 {
        object_references_upto(members, (n - 1) as nat);
        let before = members.take(n - 1).map_values(refs);
        before.lemma_flatten_and_flatten_alt_are_equivalent();
        assert(all.drop_last() =~= before);
        assert(all.last() == behaviour::references(members[n - 1].1));
        assert(own + (before.flatten() + all.last()) =~= (own + before.flatten()) + all.last());
    } else {
        assert(own + all.flatten() =~= own);
    }
}

/// A value that is no list and no object has no references.
pub proof fn references_of_a_scalar(v: JView)
    requires
        !(v is Obj),
        !(v is Arr),
    ensures
        behaviour::references(v) == Seq::<(Seq<char>, Seq<char>)>::empty(),
{
}

/// Whether an automation refers to something by an id.
pub open spec fn refers_to(automation: JView, id: Seq<char>) -> bool {
    exists|kind: Seq<char>| #[trigger] behaviour::references(automation).contains((id, kind))
}

/// Whether an automation refers to a room by an id under which the room has a name.
pub open spec fn refers_to_room(automation: JView, names: JView, name: Seq<char>) -> bool {
    exists|id: Seq<char>|
        #[trigger] names.get(id) == Some(JView::Str(name)) && behaviour::references(
            automation,
        ).contains((id, "room"@))
}

/// Whether an automation refers to a device: by the device's id or one of its buttons'.
pub open spec fn refers_to_device(automation: JView, device: JView) -> bool {
    ||| (device.get("id"@) matches Some(JView::Str(id)) && refers_to(automation, id))
    ||| (!(device.get("id"@) matches Some(JView::Str(_))) && refers_to(automation, ""@))
    ||| (device.get("buttons"@) matches Some(JView::Arr(buttons)) && exists|k: int|
        0 <= k < buttons.len() && (#[trigger] buttons[k] matches JView::Str(id) && refers_to(
            automation,
            id,
        )))
}

proof fn device_is_referred_to(automation: JView, device: JView)
    ensures
        behaviour::names_device(behaviour::references(automation), device) <==> refers_to_device(
            automation,
            device,
        ),
{
    let refs = behaviour::references(automation);
    let known = behaviour::known_by(device);
    let own = json::str_or(json::as_str(device.get("id"@)), ""@);
    let buttons = json::list_or_empty(json::as_array(device.get("buttons"@)));
    let ids = json::strings(buttons);
    assert forall|id: Seq<char>| #[trigger] known.contains(id) <==> id == own || buttons.contains(
        JView::Str(id),
    ) by {
        crate::laws::publish::texts_are_those_there(buttons, buttons.len(), id);
        assert(buttons.take(buttons.len() as int) =~= buttons);
        if known.contains(id) {
            let k = known.index_of(id);
            if k > 0 {
                assert(ids[k - 1] == id);
                assert(ids.contains(id));
            }
        }
        if id == own {
            assert(known[0] == id);
        }
        if ids.contains(id) {
            let k = ids.index_of(id);
            assert(known[k + 1] == id);
        }
    }
    if behaviour::names_device(refs, device) {
        let j = choose|j: int| 0 <= j < refs.len() && known.contains(#[trigger] refs[j].0);
        let id = refs[j].0;
        assert(refs[j] == (id, refs[j].1));
        assert(refs.contains((id, refs[j].1)));
        assert(refers_to(automation, id));
        if id != own {
            let k = buttons.index_of(JView::Str(id));
            assert(buttons[k] == JView::Str(id));
        }
    }
    if refers_to_device(automation, device) {
        let id = if refers_to(automation, own) {
            own
        } else {
            let k = choose|k: int|
                0 <= k < buttons.len() && (#[trigger] buttons[k] matches JView::Str(id)
                    && refers_to(automation, id));
            assert(buttons.contains(buttons[k]));
            buttons[k]->Str_0
        };
        assert(known.contains(id));
        let kind = choose|kind: Seq<char>| #[trigger] refs.contains((id, kind));
        let j = refs.index_of((id, kind));
        assert(known.contains(refs[j].0));
    }
}

/// An automation ties a device to rooms exactly where it refers to the device and to a room that
/// has a name, and then it ties it to every such room. The device then drives that room besides
/// those it drove.
pub proof fn an_automation_ties_a_device_to_its_rooms(
    device: JView,
    automation: JView,
    names: JView,
    name: Seq<char>,
)
    requires
        device is Obj,
    ensures
        behaviour::controls_of(behaviour::wired(device, automation, names)).contains(name) <==> {
            ||| behaviour::controls_of(device).contains(name)
            ||| refers_to_device(automation, device) && refers_to_room(automation, names, name)
        },
        behaviour::wired(device, automation, names) != device ==> refers_to_device(
            automation,
            device,
        ) && exists|room: Seq<char>| #[trigger] refers_to_room(automation, names, room),
{
    broadcast use json::lookup_put;

    let refs = behaviour::references(automation);
    let rooms = behaviour::targets(refs, refs.len(), names);
    device_is_referred_to(automation, device);
    crate::laws::behaviour::rooms_are_those_referred_to(automation, names, name);
    assert(rooms.contains(name) <==> refers_to_room(automation, names, name)) by {
        if rooms.contains(name) {
            let id = choose|id: Seq<char>|
                refs.contains((id, "room"@)) && #[trigger] json::as_str(names.get(id)) == Some(
                    name,
                );
            assert(names.get(id) == Some(JView::Str(name)));
        }
        if refers_to_room(automation, names, name) {
            let id = choose|id: Seq<char>|
                #[trigger] names.get(id) == Some(JView::Str(name)) && refs.contains((id, "room"@));
            assert(json::as_str(names.get(id)) == Some(name));
        }
    }
    if rooms.len() > 0 {
        let first = rooms[0];
        assert(rooms.contains(first));
        crate::laws::behaviour::rooms_are_those_referred_to(automation, names, first);
        let id = choose|id: Seq<char>|
            refs.contains((id, "room"@)) && #[trigger] json::as_str(names.get(id)) == Some(first);
        assert(names.get(id) == Some(JView::Str(first)));
        assert(refers_to_room(automation, names, first));
    }
    let before = behaviour::controls_of(device);
    crate::laws::behaviour::united_grows(before, rooms, rooms.len());
    assert(rooms.take(rooms.len() as int) =~= rooms);
    json::strings_are_read_back(behaviour::united(before, rooms, rooms.len()));
}

/// Whether a reference is to a room that has a name.
pub open spec fn is_room(names: JView, reference: (Seq<char>, Seq<char>)) -> bool {
    reference.1 == "room"@ && (names.get(reference.0) matches Some(JView::Str(_)))
}

/// The rooms that an automation names are those of its references to rooms with a name, in the
/// order of the references.
pub proof fn rooms_come_as_they_are_referred_to(
    refs: Seq<(Seq<char>, Seq<char>)>,
    n: nat,
    names: JView,
)
    requires
        n <= refs.len(),
    ensures
        behaviour::targets(refs, n, names) == refs.take(n as int).filter(
            |r: (Seq<char>, Seq<char>)| is_room(names, r),
        ).map_values(|r: (Seq<char>, Seq<char>)| names.get(r.0)->0->Str_0),
    decreases n,
{
    reveal(Seq::filter);
    let is = |r: (Seq<char>, Seq<char>)| is_room(names, r);
    let get = |r: (Seq<char>, Seq<char>)| names.get(r.0)->0->Str_0;
    if n == 0 {
        assert(refs.take(0).filter(is).map_values(get) =~= seq![]);
    } else {
        rooms_come_as_they_are_referred_to(refs, (n - 1) as nat, names);
        assert(refs.take(n as int).drop_last() =~= refs.take(n - 1));
        let before = refs.take(n - 1).filter(is);
        assert(before.push(refs[n - 1]).map_values(get) =~= before.map_values(get).push(
            get(refs[n - 1]),
        ));
    }
}

/// Whether a name is the first of some, but for others that come before it.
pub open spec fn comes_next(
    earlier: Seq<Seq<char>>,
    more: Seq<Seq<char>>,
    n: nat,
    k: int,
    name: Seq<char>,
) -> bool {
    &&& 0 <= k < n
    &&& more[k] == name
    &&& forall|j: int| 0 <= j < k ==> earlier.contains(#[trigger] more[j])
}

/// Rooms that are added come behind those that are there, in the order they are named first.
pub proof fn rooms_are_added_as_they_are_named(
    names: Seq<Seq<char>>,
    more: Seq<Seq<char>>,
    n: nat,
    p: int,
) -> (k: int)
    requires
        n <= more.len(),
        names.len() <= p < behaviour::united(names, more, n).len(),
    ensures
        ({
            let all = behaviour::united(names, more, n);
            comes_next(all.take(p), more, n, k, all[p])
        }),
    decreases n,
{
    let m = (n - 1) as nat;
    let rest = behaviour::united(names, more, m);
    let all = behaviour::united(names, more, n);
    if p < rest.len() {
        assert(all.take(p) =~= rest.take(p));
        rooms_are_added_as_they_are_named(names, more, m, p)
    } else {
        crate::laws::behaviour::united_grows(names, more, m);
        assert(all.take(p) =~= rest);
        assert forall|j: int| 0 <= j < n - 1 implies rest.contains(#[trigger] more[j]) by {
            assert(more.take(m as int)[j] == more[j]);
            assert(more.take(m as int).contains(more[j]));
        }
        n - 1
    }
}

} // verus!
