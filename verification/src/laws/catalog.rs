//! Laws of the catalog: buttons, rooms and names.

use vstd::prelude::*;
use crate::catalog;
use crate::catalog::GroupView;
use crate::json;
use crate::json::{JView, Members};

verus! {

/// Whether buttons come in the order of their numbers.
pub open spec fn in_order(data: Seq<JView>, ids: Seq<Seq<char>>) -> bool {
    forall|i: int, j: int|
        0 <= i < j < ids.len() ==> catalog::button_order(data, #[trigger] ids[i])
            <= catalog::button_order(data, #[trigger] ids[j])
}

/// Those of some buttons that come at one place.
pub open spec fn coming_at(data: Seq<JView>, ids: Seq<Seq<char>>, order: u64) -> Seq<Seq<char>> {
    ids.filter(|id: Seq<char>| catalog::button_order(data, id) == order)
}

proof fn slot_bounds(data: Seq<JView>, list: Seq<Seq<char>>, order: u64, i: nat)
    requires
        i <= list.len(),
    ensures
        i <= catalog::button_slot(data, list, order, i) <= list.len(),
        forall|k: int|
            i <= k < catalog::button_slot(data, list, order, i) ==> catalog::button_order(
                data,
                #[trigger] list[k],
            ) <= order,
        catalog::button_slot(data, list, order, i) < list.len() ==> catalog::button_order(
            data,
            list[catalog::button_slot(data, list, order, i) as int],
        ) > order,
    decreases list.len() - i,
{
    if i < list.len() && catalog::button_order(data, list[i as int]) <= order {
        slot_bounds(data, list, order, i + 1);
    }
}

proof fn filter_of_none<A>(s: Seq<A>, p: spec_fn(A) -> bool)
    requires
        forall|k: int| 0 <= k < s.len() ==> !p(#[trigger] s[k]),
    ensures
        s.filter(p) =~= seq![],
    decreases s.len(),
{
    reveal(Seq::filter);
    if s.len() > 0 {
        filter_of_none(s.drop_last(), p);
    }
}

/// Putting an element into a list changes a selection of the list only where the element is
/// selected, and appends it there where nothing behind it is selected.
pub proof fn filter_insert<A>(s: Seq<A>, i: int, a: A, p: spec_fn(A) -> bool)
    requires
        0 <= i <= s.len(),
        p(a) ==> forall|k: int| i <= k < s.len() ==> !p(#[trigger] s[k]),
    ensures
        s.insert(i, a).filter(p) == if p(a) {
            s.filter(p).push(a)
        } else {
            s.filter(p)
        },
{
    let front = s.take(i);
    let back = s.skip(i);
    assert(s =~= front + back);
    assert(s.insert(i, a) =~= front + (seq![a] + back));
    Seq::filter_distributes_over_add(front, back, p);
    Seq::filter_distributes_over_add(front, seq![a] + back, p);
    Seq::filter_distributes_over_add(seq![a], back, p);
    assert(seq![a].filter(p) =~= if p(a) {
        seq![a]
    } else {
        seq![]
    }) by {
        reveal(Seq::filter);
        assert(seq![a].drop_last() =~= seq![]);
        assert(seq![a].drop_last().filter(p) =~= seq![]);
    }
    if p(a) {
        assert forall|k: int| 0 <= k < back.len() implies !p(#[trigger] back[k]) by {
            assert(back[k] == s[k + i]);
        }
        filter_of_none(back, p);
        assert(front.filter(p) + (seq![a] + back.filter(p)) =~= s.filter(p).push(a));
    } else {
        assert(front.filter(p) + (seq![] + back.filter(p)) =~= s.filter(p));
    }
}

proof fn ordered_upto(data: Seq<JView>, ids: Seq<Seq<char>>, n: nat, order: u64)
    requires
        n <= ids.len(),
    ensures
        catalog::printed_order(data, ids, n).to_multiset() == ids.take(n as int).to_multiset(),
        catalog::printed_order(data, ids, n).len() == n,
        in_order(data, catalog::printed_order(data, ids, n)),
        coming_at(data, catalog::printed_order(data, ids, n), order) == coming_at(
            data,
            ids.take(n as int),
            order,
        ),
    decreases n,
{
    broadcast use {vstd::seq_lib::to_multiset_build, vstd::seq_lib::to_multiset_insert};

    if n > 0 {
        ordered_upto(data, ids, (n - 1) as nat, order);
        let rest = catalog::printed_order(data, ids, (n - 1) as nat);
        let id = ids[n - 1];
        let at = catalog::button_order(data, id);
        let slot = catalog::button_slot(data, rest, at, 0) as int;
        slot_bounds(data, rest, at, 0);
        let after = rest.insert(slot, id);
        assert(ids.take(n as int) =~= ids.take(n - 1).push(id));
        assert forall|i: int, j: int| 0 <= i < j < after.len() implies catalog::button_order(
            data,
            #[trigger] after[i],
        ) <= catalog::button_order(data, #[trigger] after[j]) by {
            let x = if i < slot {
                i
            } else {
                i - 1
            };
            let y = if j < slot {
                j
            } else {
                j - 1
            };
            if i == slot {
                assert(catalog::button_order(data, rest[slot]) <= catalog::button_order(
                    data,
                    rest[y],
                ) || y == slot);
            } else if j == slot {
                assert(after[i] == rest[i]);
            } else {
                assert(after[i] == rest[x] && after[j] == rest[y]);
            }
        }
        let p = |x: Seq<char>| catalog::button_order(data, x) == order;
        if p(id) {
            assert forall|k: int| slot <= k < rest.len() implies !p(#[trigger] rest[k]) by {
                assert(catalog::button_order(data, rest[slot]) > at);
            }
        }
        filter_insert(rest, slot, id, p);
        assert(ids.take(n - 1).push(id).filter(p) == if p(id) {
            ids.take(n - 1).filter(p).push(id)
        } else {
            ids.take(n - 1).filter(p)
        }) by {
            filter_insert(ids.take(n - 1), n - 1, id, p);
            assert(ids.take(n - 1).insert(n - 1, id) =~= ids.take(n - 1).push(id));
        }
    } else {
        assert(ids.take(0) =~= seq![]);
    }
}

/// Ordering buttons loses none and adds none, puts them in the order of their numbers, and keeps
/// the order of those that come alike.
pub proof fn buttons_are_ordered(data: Seq<JView>, ids: Seq<Seq<char>>, order: u64)
    ensures
        catalog::printed_order(data, ids, ids.len()).to_multiset() == ids.to_multiset(),
        in_order(data, catalog::printed_order(data, ids, ids.len())),
        coming_at(data, catalog::printed_order(data, ids, ids.len()), order) == coming_at(
            data,
            ids,
            order,
        ),
{
    ordered_upto(data, ids, ids.len(), order);
    assert(ids.take(ids.len() as int) =~= ids);
}

/// A button without a number comes no earlier than any other.
pub proof fn unnumbered_buttons_come_last(data: Seq<JView>, id: Seq<char>, other: Seq<char>)
    requires
        catalog::control_id(data, data.len(), id) is None,
    ensures
        catalog::button_order(data, other) <= catalog::button_order(data, id),
{
}

/// Ordering buttons touches nothing of a device but its buttons.
pub proof fn ordering_touches_only_buttons(device: JView, data: Seq<JView>, key: Seq<char>)
    requires
        key != "buttons"@,
    ensures
        catalog::ordered(device, data).get(key) == device.get(key),
{
    match device {
        JView::Obj(members) => {
            let buttons = json::list_or_empty(json::as_array(device.get("buttons"@)));
            let ids = json::strings(buttons);
            json::lookup_put(
                members,
                "buttons"@,
                json::string_array(catalog::printed_order(data, ids, ids.len())),
                key,
            );
        },
        _ => {},
    }
}

/// Filing a device touches nothing of it but its room.
pub proof fn filing_touches_only_the_room(device: JView, groups: Seq<GroupView>, key: Seq<char>)
    requires
        key != "room"@,
    ensures
        catalog::placed(device, groups).get(key) == device.get(key),
{
    match (device, catalog::place_of(device, groups)) {
        (JView::Obj(members), Some(name)) => {
            json::lookup_put(members, "room"@, JView::Str(name), key);
        },
        _ => {
            if !(device is Obj) {
                no_place_without_members(device, groups);
            }
        },
    }
}

proof fn no_place_without_members(device: JView, groups: Seq<GroupView>)
    requires
        !(device is Obj),
    ensures
        catalog::place_of(device, groups) is None,
{
    assert(json::strings(seq![]) =~= seq![]);
}

/// A room set first stays: filing a device again, by other groups, does not move it.
pub proof fn a_room_set_first_stays(device: JView, first: Seq<GroupView>, second: Seq<GroupView>)
    requires
        catalog::is_placed(catalog::placed(device, first)),
    ensures
        catalog::placed(catalog::placed(device, first), second) == catalog::placed(device, first),
{
}

/// A device that is in no room yet is filed under the group that holds it, or one of its lights.
pub proof fn a_device_is_filed(device: JView, groups: Seq<GroupView>, name: Seq<char>)
    requires
        !catalog::is_placed(device),
        catalog::place_of(device, groups) == Some(name),
    ensures
        json::as_str(catalog::placed(device, groups).get("room"@)) == Some(name),
{
    match device {
        JView::Obj(members) => {
            json::lookup_put(members, "room"@, JView::Str(name), "room"@);
        },
        _ => {
            no_place_without_members(device, groups);
        },
    }
}

proof fn owners_room(catalog: Seq<JView>, light: Seq<char>, i: nat, owner: nat, name: Seq<char>)
    requires
        i <= owner < catalog.len(),
        catalog::owns_light(catalog[owner as int], light),
        json::as_str(catalog[owner as int].get("room"@)) == Some(name),
        forall|k: int|
            0 <= k < catalog.len() && k != owner ==> !catalog::owns_light(
                #[trigger] catalog[k],
                light,
            ),
    ensures
        catalog::light_room(catalog, light, i) == Some(name),
    decreases owner - i,
{
    if i < owner {
        owners_room(catalog, light, i + 1, owner, name);
    }
}

/// A light inherits the room that the device owning it is filed under: once the devices are filed,
/// the room of the light is the group that holds that device, or one of its lights.
pub proof fn a_light_is_where_its_device_is(
    found: Seq<JView>,
    groups: Seq<GroupView>,
    light: Seq<char>,
    owner: nat,
    name: Seq<char>,
)
    requires
        owner < found.len(),
        catalog::owns_light(found[owner as int], light),
        forall|k: int|
            0 <= k < found.len() && k != owner ==> !catalog::owns_light(#[trigger] found[k], light),
        !catalog::is_placed(found[owner as int]),
        catalog::place_of(found[owner as int], groups) == Some(name),
    ensures
        catalog::light_room(
            found.map_values(|d: JView| catalog::placed(d, groups)),
            light,
            0,
        ) == Some(name),
{
    let filed = found.map_values(|d: JView| catalog::placed(d, groups));
    a_device_is_filed(found[owner as int], groups, name);
    reveal_strlit("room");
    reveal_strlit("lights");
    assert("room"@.len() != "lights"@.len());
    assert forall|k: int| 0 <= k < filed.len() implies catalog::owns_light(#[trigger] filed[k], light)
        == catalog::owns_light(found[k], light) by {
        filing_touches_only_the_room(found[k], groups, "lights"@);
    }
    assert(catalog::owns_light(filed[owner as int], light));
    assert forall|k: int| 0 <= k < filed.len() && k != owner implies !catalog::owns_light(
        #[trigger] filed[k],
        light,
    ) by {
        assert(!catalog::owns_light(found[k], light));
    }
    owners_room(filed, light, 0, owner, name);
}

proof fn merged_upto(first: Members, more: Members, n: nat, id: Seq<char>)
    requires
        n <= more.len(),
    ensures
        json::lookup(catalog::merged(first, more, n), id) == match json::lookup(first, id) {
            Some(name) => Some(name),
            None => json::find(more, n, id),
        },
    decreases n,
{
    if n > 0 {
        merged_upto(first, more, (n - 1) as nat, id);
        let rest = catalog::merged(first, more, (n - 1) as nat);
        let (key, name) = more[n - 1];
        merged_upto(first, more, (n - 1) as nat, key);
        json::lookup_put(rest, key, name, id);
    }
}

/// Of two maps of names, the first wins, and the second fills in.
pub proof fn the_first_name_wins(first: Members, second: Members, id: Seq<char>)
    ensures
        json::lookup(catalog::merged(first, second, second.len()), id) == match json::lookup(
            first,
            id,
        ) {
            Some(name) => Some(name),
            None => json::lookup(second, id),
        },
{
    merged_upto(first, second, second.len(), id);
}

/// Merging names keeps ids ascending.
pub proof fn merging_keeps_order(first: Members, second: Members, n: nat)
    requires
        json::ordered(first),
    ensures
        json::ordered(catalog::merged(first, second, n)),
    decreases n,
{
    if n > 0 {
        merging_keeps_order(first, second, (n - 1) as nat);
        let rest = catalog::merged(first, second, (n - 1) as nat);
        json::put_ordered(rest, second[n - 1].0, second[n - 1].1);
    }
}

/// Everything that is kept of an answer is what one of its devices is reduced to.
pub proof fn kept_devices_come_from_the_answer(data: Seq<JView>, n: nat, k: int)
    requires
        n <= data.len(),
        0 <= k < catalog::compacted(data, n).len(),
    ensures
        exists|i: int|
            0 <= i < n && catalog::compact_device(#[trigger] data[i]) == Some(
                catalog::compacted(data, n)[k],
            ),
    decreases n,
{
    let rest = catalog::compacted(data, (n - 1) as nat);
    if k < rest.len() {
        kept_devices_come_from_the_answer(data, (n - 1) as nat, k);
        let i = choose|i: int|
            0 <= i < n - 1 && catalog::compact_device(#[trigger] data[i]) == Some(rest[k]);
        assert(catalog::compact_device(data[i]) == Some(catalog::compacted(data, n)[k]));
    } else {
        assert(catalog::compact_device(data[n - 1]) == Some(catalog::compacted(data, n)[k]));
    }
}

} // verus!
