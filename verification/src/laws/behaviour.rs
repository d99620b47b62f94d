//! Laws of what the bridge's automations say.

use vstd::prelude::*;
use crate::behaviour;
use crate::catalog;
use crate::json;
use crate::json::JView;
use crate::offer;
use crate::text;

verus! {

/// The `i`-th value that stands directly inside a value.
pub open spec fn inner(v: JView, i: int) -> JView {
    match v {
        JView::Obj(members) => members[i].1,
        JView::Arr(items) => items[i],
        _ => v,
    }
}

/// The value that a path leads to from a value, one step for each level of nesting.
pub open spec fn at_path(v: JView, path: Seq<nat>) -> Option<JView>
    decreases path.len(),
{
    if path.len() == 0 {
        Some(v)
    } else if path[0] < behaviour::width(v) {
        at_path(inner(v, path[0] as int), path.drop_first())
    } else {
        None
    }
}

proof fn own_comes_first(v: JView, n: nat, r: (Seq<char>, Seq<char>))
    requires
        n <= behaviour::width(v),
        behaviour::own_reference(v).contains(r),
    ensures
        behaviour::references_upto(v, n).contains(r),
    decreases n,
{
    if n > 0 {
        own_comes_first(v, (n - 1) as nat, r);
        kept_by_more(v, n, r);
    }
}

proof fn kept_by_more(v: JView, n: nat, r: (Seq<char>, Seq<char>))
    requires
        0 < n <= behaviour::width(v),
        behaviour::references_upto(v, (n - 1) as nat).contains(r),
    ensures
        behaviour::references_upto(v, n).contains(r),
{
    let rest = behaviour::references_upto(v, (n - 1) as nat);
    let more = behaviour::references(inner(v, n - 1));
    assert(behaviour::references_upto(v, n) == rest + more);
    let k = choose|k: int| 0 <= k < rest.len() && rest[k] == r;
    assert((rest + more)[k] == r);
}

proof fn inner_comes_along(v: JView, i: nat, n: nat, r: (Seq<char>, Seq<char>))
    requires
        i < n <= behaviour::width(v),
        behaviour::references(inner(v, i as int)).contains(r),
    ensures
        behaviour::references_upto(v, n).contains(r),
    decreases n,
{
    if i < n - 1 {
        inner_comes_along(v, i, (n - 1) as nat, r);
        kept_by_more(v, n, r);
    } else {
        let rest = behaviour::references_upto(v, (n - 1) as nat);
        let more = behaviour::references(inner(v, n - 1));
        assert(behaviour::references_upto(v, n) == rest + more);
        let k = choose|k: int| 0 <= k < more.len() && more[k] == r;
        assert((rest + more)[rest.len() + k] == r);
    }
}

/// Every reference anywhere inside a value is found, however deeply it is nested.
pub proof fn every_reference_is_found(
    v: JView,
    path: Seq<nat>,
    found: JView,
    r: (Seq<char>, Seq<char>),
)
    requires
        at_path(v, path) == Some(found),
        behaviour::own_reference(found).contains(r),
    ensures
        behaviour::references(v).contains(r),
    decreases path.len(),
{
    if path.len() == 0 {
        own_comes_first(v, behaviour::width(v), r);
    } else {
        every_reference_is_found(inner(v, path[0] as int), path.drop_first(), found, r);
        inner_comes_along(v, path[0], behaviour::width(v), r);
    }
}

proof fn references_come_from_somewhere(v: JView, n: nat, r: (Seq<char>, Seq<char>)) -> (path: Seq<nat>)
    requires
        n <= behaviour::width(v),
        behaviour::references_upto(v, n).contains(r),
    ensures
        at_path(v, path) matches Some(found) && behaviour::own_reference(found).contains(r),
    decreases v, n,
{
    if n == 0 {
        Seq::<nat>::empty()
    } else {
        let rest = behaviour::references_upto(v, (n - 1) as nat);
        let child = inner(v, n - 1);
        let more = behaviour::references(child);
        assert(behaviour::references_upto(v, n) == rest + more);
        let k = choose|k: int| 0 <= k < (rest + more).len() && (rest + more)[k] == r;
        if k < rest.len() {
            assert(rest[k] == r);
            references_come_from_somewhere(v, (n - 1) as nat, r)
        } else {
            assert(more[k - rest.len()] == r);
            match v {
                JView::Obj(members) => {
                    assert(decreases_to!(v => members[n - 1].1));
                },
                JView::Arr(items) => {
                    assert(decreases_to!(v => items[n - 1]));
                },
                _ => {},
            }
            let tail = references_come_from_somewhere(child, behaviour::width(child), r);
            let path = seq![(n - 1) as nat] + tail;
            assert(path.drop_first() =~= tail);
            path
        }
    }
}

/// A reference is found in a value if and only if it is there, at some depth.
pub proof fn references_are_what_is_there(v: JView, r: (Seq<char>, Seq<char>))
    ensures
        behaviour::references(v).contains(r) <==> exists|path: Seq<nat>|
            #[trigger] at_path(v, path) matches Some(found) && behaviour::own_reference(
                found,
            ).contains(r),
{
    if behaviour::references(v).contains(r) {
        let path = references_come_from_somewhere(v, behaviour::width(v), r);
        assert(at_path(v, path) matches Some(found) && behaviour::own_reference(found).contains(r));
    }
    if exists|path: Seq<nat>|
        #[trigger] at_path(v, path) matches Some(found) && behaviour::own_reference(
            found,
        ).contains(r) {
        let path = choose|path: Seq<nat>|
            #[trigger] at_path(v, path) matches Some(found) && behaviour::own_reference(
                found,
            ).contains(r);
        every_reference_is_found(v, path, at_path(v, path)->0, r);
    }
}

/// The names of the rooms that an automation refers to.
pub open spec fn rooms_of(automation: JView, names: JView) -> Seq<Seq<char>> {
    let refs = behaviour::references(automation);
    behaviour::targets(refs, refs.len(), names)
}

proof fn targets_upto(
    refs: Seq<(Seq<char>, Seq<char>)>,
    n: nat,
    names: JView,
    name: Seq<char>,
)
    requires
        n <= refs.len(),
    ensures
        behaviour::targets(refs, n, names).contains(name) <==> exists|k: int|
            0 <= k < n && (#[trigger] refs[k]).1 == "room"@ && json::as_str(names.get(refs[k].0))
                == Some(name),
    decreases n,
{
    let all = behaviour::targets(refs, n, names);
    if n > 0 {
        targets_upto(refs, (n - 1) as nat, names, name);
        let rest = behaviour::targets(refs, (n - 1) as nat, names);
        if rest.contains(name) {
            let i = choose|i: int| 0 <= i < rest.len() && rest[i] == name;
            assert(all[i] == name);
        }
        if refs[n - 1].1 == "room"@ && json::as_str(names.get(refs[n - 1].0)) == Some(name) {
            assert(all[rest.len() as int] == name);
        }
        if all.contains(name) && !rest.contains(name) {
            let i = choose|i: int| 0 <= i < all.len() && all[i] == name;
            if i < rest.len() {
                assert(rest[i] == name);
            }
            assert(refs[n - 1].1 == "room"@);
        }
    }
}

/// A room is named for an automation if and only if the automation refers to it, at any depth, and
/// the room has that name.
pub proof fn rooms_are_those_referred_to(automation: JView, names: JView, name: Seq<char>)
    ensures
        rooms_of(automation, names).contains(name) <==> exists|rid: Seq<char>|
            behaviour::references(automation).contains((rid, "room"@)) && #[trigger] json::as_str(
                names.get(rid),
            ) == Some(name),
{
    let refs = behaviour::references(automation);
    targets_upto(refs, refs.len(), names, name);
    if rooms_of(automation, names).contains(name) {
        let k = choose|k: int|
            0 <= k < refs.len() && (#[trigger] refs[k]).1 == "room"@ && json::as_str(
                names.get(refs[k].0),
            ) == Some(name);
        assert(refs[k] == (refs[k].0, "room"@));
        assert(refs.contains((refs[k].0, "room"@)));
    }
    if exists|rid: Seq<char>|
        refs.contains((rid, "room"@)) && #[trigger] json::as_str(names.get(rid)) == Some(name) {
        let rid = choose|rid: Seq<char>|
            refs.contains((rid, "room"@)) && #[trigger] json::as_str(names.get(rid)) == Some(name);
        let k = choose|k: int| 0 <= k < refs.len() && refs[k] == (rid, "room"@);
        assert(refs[k].1 == "room"@);
    }
}

/// Whether a list is another one with more behind it, none of which was there already.
pub open spec fn adds_to(before: Seq<Seq<char>>, after: Seq<Seq<char>>) -> bool {
    &&& before.is_prefix_of(after)
    &&& forall|i: int, j: int|
        0 <= i < j < after.len() && j >= before.len() ==> #[trigger] after[i] != #[trigger] after[j]
}

proof fn adding_twice(a: Seq<Seq<char>>, b: Seq<Seq<char>>, c: Seq<Seq<char>>)
    requires
        adds_to(a, b),
        adds_to(b, c),
    ensures
        adds_to(a, c),
{
    assert(a =~= c.take(a.len() as int));
    assert forall|i: int, j: int| 0 <= i < j < c.len() && j >= a.len() implies #[trigger] c[i]
        != #[trigger] c[j] by {
        if j < b.len() {
            assert(b[i] == c[i] && b[j] == c[j]);
        }
    }
}

pub(crate) proof fn united_grows(names: Seq<Seq<char>>, more: Seq<Seq<char>>, n: nat)
    requires
        n <= more.len(),
    ensures
        adds_to(names, behaviour::united(names, more, n)),
        forall|x: Seq<char>|
            #[trigger] behaviour::united(names, more, n).contains(x) <==> names.contains(x)
                || more.take(n as int).contains(x),
    decreases n,
{
    if n == 0 {
        assert(more.take(0) =~= seq![]);
    } else {
        united_grows(names, more, (n - 1) as nat);
        let rest = behaviour::united(names, more, (n - 1) as nat);
        let all = behaviour::united(names, more, n);
        let x = more[n - 1];
        let some = more.take(n - 1);
        let most = more.take(n as int);
        assert(most =~= some.push(x));
        if !rest.contains(x) {
            assert(all == rest.push(x));
            assert(names =~= all.take(names.len() as int));
        }
        assert forall|y: Seq<char>|
            #[trigger] all.contains(y) <==> names.contains(y) || most.contains(y) by {
            assert(rest.contains(y) <==> names.contains(y) || some.contains(y));
            text::contains_push(some, x, y);
            if !rest.contains(x) {
                text::contains_push(rest, x, y);
            }
        }
    }
}

proof fn keys_differ()
    ensures
        "controls"@ != "id"@,
        "controls"@ != "buttons"@,
{
    reveal_strlit("controls");
    reveal_strlit("id");
    reveal_strlit("buttons");
    assert("controls"@.len() == 8 && "id"@.len() == 2 && "buttons"@.len() == 7);
}

/// A device whose list of what it controls is another one.
pub open spec fn controlling(device: JView, list: Seq<Seq<char>>) -> JView {
    catalog::set_member(device, "controls"@, json::string_array(list))
}

proof fn controlling_is(device: JView, list: Seq<Seq<char>>, again: Seq<Seq<char>>)
    requires
        device is Obj || device is Null,
    ensures
        controlling(device, list) is Obj,
        behaviour::controls_of(controlling(device, list)) == list,
        behaviour::known_by(controlling(device, list)) == behaviour::known_by(device),
        controlling(controlling(device, list), again) == controlling(device, again),
        forall|key: Seq<char>|
            key != "controls"@ ==> #[trigger] controlling(device, list).get(key) == device.get(key),
{
    broadcast use json::lookup_put;

    keys_differ();
    json::strings_are_read_back(list);
    let members = match device {
        JView::Obj(m) => m,
        _ => seq![],
    };
    json::put_put(members, "controls"@, json::string_array(list), json::string_array(again));
    assert forall|key: Seq<char>| key != "controls"@ implies #[trigger] controlling(
        device,
        list,
    ).get(key) == device.get(key) by {
        assert(json::lookup(seq![], key) is None);
    }
}

/// Whether one of the first `n` automations ties a device to a room.
pub open spec fn is_tied(device: JView, data: Seq<JView>, n: nat, names: JView, room: Seq<char>) -> bool {
    exists|b: int|
        0 <= b < n && behaviour::concerns(#[trigger] data[b], names, device) && rooms_of(
            data[b],
            names,
        ).contains(room)
}

/// Whether one of the first `n` automations concerns a device.
pub open spec fn is_concerned(device: JView, data: Seq<JView>, n: nat, names: JView) -> bool {
    exists|b: int| 0 <= b < n && behaviour::concerns(#[trigger] data[b], names, device)
}

proof fn wired_shape(device: JView, data: Seq<JView>, n: nat, names: JView)
    requires
        n <= data.len(),
        device is Obj || device is Null,
    ensures
        ({
            let after = behaviour::wired_upto(device, data, n, names);
            let list = behaviour::controls_of(after);
            &&& after == if is_concerned(device, data, n, names) {
                controlling(device, list)
            } else {
                device
            }
            &&& behaviour::known_by(after) == behaviour::known_by(device)
            &&& adds_to(behaviour::controls_of(device), list)
            &&& forall|room: Seq<char>|
                #[trigger] list.contains(room) <==> behaviour::controls_of(device).contains(room)
                    || is_tied(device, data, n, names, room)
        }),
    decreases n,
{
    if n > 0 {
        wired_shape(device, data, (n - 1) as nat, names);
        let before = behaviour::wired_upto(device, data, (n - 1) as nat, names);
        let after = behaviour::wired_upto(device, data, n, names);
        let start = behaviour::controls_of(device);
        let some = behaviour::controls_of(before);
        let more = rooms_of(data[n - 1], names);
        let list = behaviour::united(some, more, more.len());
        controlling_is(device, some, list);
        controlling_is(device, list, list);
        united_grows(some, more, more.len());
        assert(more.take(more.len() as int) =~= more);
        let now = behaviour::concerns(data[n - 1], names, device);
        assert(behaviour::concerns(data[n - 1], names, before) == now);
        if now {
            assert(after == controlling(before, list));
            assert(after == controlling(device, list));
            assert(is_concerned(device, data, n, names));
            adding_twice(start, some, list);
        } else {
            assert(after == before);
        }
        let end = behaviour::controls_of(after);
        assert(is_concerned(device, data, n, names) <==> now || is_concerned(
            device,
            data,
            (n - 1) as nat,
            names,
        )) by {
            if is_concerned(device, data, (n - 1) as nat, names) {
                let b = choose|b: int|
                    0 <= b < n - 1 && behaviour::concerns(#[trigger] data[b], names, device);
                assert(behaviour::concerns(data[b], names, device));
            }
        }
        assert forall|room: Seq<char>|
            #[trigger] end.contains(room) <==> start.contains(room) || is_tied(
                device,
                data,
                n,
                names,
                room,
            ) by {
            let earlier = is_tied(device, data, (n - 1) as nat, names, room);
            assert(some.contains(room) <==> start.contains(room) || earlier);
            if earlier {
                let b = choose|b: int|
                    0 <= b < n - 1 && behaviour::concerns(#[trigger] data[b], names, device)
                        && rooms_of(data[b], names).contains(room);
                assert(behaviour::concerns(data[b], names, device));
            }
            if now && more.contains(room) {
                assert(behaviour::concerns(data[n - 1], names, device));
                assert(is_tied(device, data, n, names, room));
            }
            if now {
                assert(list.contains(room) <==> some.contains(room) || more.contains(room));
            }
        }
    }
}

/// Automations add to a device exactly the rooms that they tie it to, each once, behind those that
/// are there, and touch nothing else of it.
pub proof fn automations_add_exactly_what_they_tie(
    device: JView,
    data: Seq<JView>,
    names: JView,
    room: Seq<char>,
    other: Seq<char>,
)
    requires
        device is Obj,
        other != "controls"@,
    ensures
        ({
            let after = behaviour::wired_upto(device, data, data.len(), names);
            let before = behaviour::controls_of(device);
            &&& adds_to(before, behaviour::controls_of(after))
            &&& behaviour::controls_of(after).contains(room) <==> before.contains(room) || is_tied(
                device,
                data,
                data.len(),
                names,
                room,
            )
            &&& after.get(other) == device.get(other)
        }),
{
    wired_shape(device, data, data.len(), names);
    let after = behaviour::wired_upto(device, data, data.len(), names);
    let list = behaviour::controls_of(after);
    controlling_is(device, list, list);
    assert(controlling(device, list).get(other) == device.get(other));
}

proof fn scalars_stay(device: JView, data: Seq<JView>, n: nat, names: JView)
    requires
        !(device is Obj),
        !(device is Null),
    ensures
        behaviour::wired_upto(device, data, n, names) == device,
    decreases n,
{
    if n > 0 {
        scalars_stay(device, data, (n - 1) as nat, names);
    }
}

proof fn nothing_to_add(names: Seq<Seq<char>>, more: Seq<Seq<char>>, n: nat)
    requires
        n <= more.len(),
        forall|k: int| 0 <= k < n ==> names.contains(#[trigger] more[k]),
    ensures
        behaviour::united(names, more, n) == names,
    decreases n,
{
    if n > 0 {
        nothing_to_add(names, more, (n - 1) as nat);
    }
}

proof fn settled_stays(
    device: JView,
    data: Seq<JView>,
    n: nat,
    names: JView,
    after: JView,
    m: nat,
)
    requires
        device is Obj || device is Null,
        n <= data.len(),
        m <= n,
        after == behaviour::wired_upto(device, data, n, names),
    ensures
        behaviour::wired_upto(after, data, m, names) == after,
    decreases m,
{
    if m > 0 {
        settled_stays(device, data, n, names, after, (m - 1) as nat);
        wired_shape(device, data, n, names);
        let b = m - 1;
        if behaviour::concerns(data[b], names, after) {
            assert(behaviour::concerns(data[b], names, device));
            assert(is_concerned(device, data, n, names));
            let list = behaviour::controls_of(after);
            let more = rooms_of(data[b], names);
            assert forall|k: int| 0 <= k < more.len() implies list.contains(#[trigger] more[k]) by {
                assert(is_tied(device, data, n, names, more[k]));
            }
            nothing_to_add(list, more, more.len());
            controlling_is(device, list, list);
            assert(behaviour::wired(after, data[b], names) == controlling(after, list));
        }
    }
}

/// What the automations say, once written down, is written down: applying the same automations a
/// second time changes nothing.
pub proof fn applying_twice_is_applying_once(device: JView, data: Seq<JView>, names: JView)
    ensures
        ({
            let once = behaviour::wired_upto(device, data, data.len(), names);
            behaviour::wired_upto(once, data, data.len(), names) == once
        }),
{
    let once = behaviour::wired_upto(device, data, data.len(), names);
    if device is Obj || device is Null {
        settled_stays(device, data, data.len(), names, once, data.len());
    } else {
        scalars_stay(device, data, data.len(), names);
    }
}

/// A catalog with what some automations say.
pub open spec fn applied(found: Seq<JView>, data: Seq<JView>, names: JView) -> Seq<JView> {
    found.map_values(|d: JView| behaviour::wired_upto(d, data, data.len(), names))
}

/// The same automations can be applied to a catalog a second time, and change nothing of it.
pub proof fn a_catalog_settles(found: Seq<JView>, data: Seq<JView>, names: JView)
    requires
        forall|i: int|
            0 <= i < found.len() ==> behaviour::can_be_wired(#[trigger] found[i], data, names),
    ensures
        forall|i: int|
            0 <= i < found.len() ==> behaviour::can_be_wired(
                #[trigger] applied(found, data, names)[i],
                data,
                names,
            ),
        applied(applied(found, data, names), data, names) == applied(found, data, names),
{
    let once = applied(found, data, names);
    assert forall|i: int| 0 <= i < found.len() implies behaviour::can_be_wired(
        #[trigger] once[i],
        data,
        names,
    ) by {
        let device = found[i];
        if device is Obj || device is Null {
            wired_shape(device, data, data.len(), names);
            controlling_is(device, behaviour::controls_of(once[i]), seq![]);
        } else {
            scalars_stay(device, data, data.len(), names);
        }
    }
    assert forall|i: int| 0 <= i < found.len() implies #[trigger] applied(once, data, names)[i]
        == once[i] by {
        applying_twice_is_applying_once(found[i], data, names);
    }
    assert(applied(once, data, names) =~= once);
}

/// A device that an automation names controls every room that the automation names.
pub proof fn a_switch_controls_what_it_is_wired_to(
    device: JView,
    automation: JView,
    names: JView,
    k: int,
)
    requires
        device is Obj,
        behaviour::names_device(behaviour::references(automation), device),
        0 <= k < behaviour::targets(
            behaviour::references(automation),
            behaviour::references(automation).len(),
            names,
        ).len(),
    ensures
        behaviour::controls_of(behaviour::wired(device, automation, names)).contains(
            behaviour::targets(
                behaviour::references(automation),
                behaviour::references(automation).len(),
                names,
            )[k],
        ),
{
    broadcast use json::lookup_put;

    let refs = behaviour::references(automation);
    let more = behaviour::targets(refs, refs.len(), names);
    let before = behaviour::controls_of(device);
    united_grows(before, more, more.len());
    json::strings_are_read_back(behaviour::united(before, more, more.len()));
    assert(more.take(more.len() as int) =~= more);
    assert(more.contains(more[k]));
    assert(behaviour::united(before, more, more.len()).contains(more[k]));
}

/// A remote that is in no room of its own is placed in the first room it drives.
pub proof fn a_switch_is_placed_by_what_it_drives(device: JView)
    requires
        json::as_str(device.get("room"@)) is None,
        behaviour::controls_of(device).len() > 0,
    ensures
        offer::room_for(device) == behaviour::controls_of(device)[0],
{
}

} // verus!
