//! What the bridge's own automations say each control surface drives.
//!
//! A Hue dimmer paired to the app is already wired to something, and the bridge holds that as a
//! `behavior_instance`. Reading it back names the switch, and where a remote is in no room of its
//! own, what it controls is the best available answer to where it lives.

use vstd::prelude::*;
use crate::catalog;
use crate::json;
use crate::json::{JView, Json};
use crate::text;

verus! {

/// How many values stand directly inside a value.
pub open spec fn width(v: JView) -> nat {
    match v {
        JView::Obj(members) => members.len(),
        JView::Arr(items) => items.len(),
        _ => 0,
    }
}

/// The reference that an object itself is: its `rid` and its `rtype`.
pub open spec fn own_reference(v: JView) -> Seq<(Seq<char>, Seq<char>)> {
    match v {
        JView::Obj(members) => match (
            json::as_str(json::lookup(members, "rid"@)),
            json::as_str(json::lookup(members, "rtype"@)),
        ) {
            (Some(rid), Some(rtype)) => seq![(rid, rtype)],
            _ => seq![],
        },
        _ => seq![],
    }
}

/// The reference that a value is, and those anywhere inside the first `n` values in it.
pub open spec fn references_upto(v: JView, n: nat) -> Seq<(Seq<char>, Seq<char>)>
    decreases v, n,
{
    if n == 0 {
        own_reference(v)
    } else {
        let rest = references_upto(v, (n - 1) as nat);
        match v {
            JView::Obj(members) => if n <= members.len() {
                rest + references_upto(members[n - 1].1, width(members[n - 1].1))
            } else {
                rest
            },
            JView::Arr(items) => if n <= items.len() {
                rest + references_upto(items[n - 1], width(items[n - 1]))
            } else {
                rest
            },
            _ => rest,
        }
    }
}

/// Every `{rid, rtype}` anywhere inside a value, however deeply it is nested.
pub open spec fn references(v: JView) -> Seq<(Seq<char>, Seq<char>)> {
    references_upto(v, width(v))
}

/// Every `{rid, rtype}` anywhere inside a value, however deeply it is nested.
///
/// Deliberately structure-blind. A behaviour's `configuration` is shaped by whichever script it is
/// an instance of, and those shapes are not documented. What every script has in common is that it
/// refers to things by `rid`, so that is what is looked for and the rest is left alone.
pub fn referenced(value: &Json, out: &mut Vec<(String, String)>)
    ensures
        text::views(final(out)@) == text::views(old(out)@) + references(value@),
    decreases *value,
{
    broadcast use {json::array_view, json::object_view, text::views_push};

    let ghost start = text::views(out@);
    match value {
        Json::Obj(map) => {
            let rid = json::str_of(map.get("rid"));
            let rtype = json::str_of(map.get("rtype"));
            match (rid, rtype) {
                (Some(rid), Some(rtype)) => {
                    out.push((rid.to_string(), rtype.to_string()));
                },
                _ => {},
            }
            assert(text::views(out@) =~= start + own_reference(value@));
            let mut i: usize = 0;
            while i < map.entries.len()
                invariant
                    i <= map.entries.len(),
                    *value == Json::Obj(*map),
                    value@ == JView::Obj(map@),
                    map@.len() == map.entries@.len(),
                    text::views(out@) == start + references_upto(value@, i as nat),
                decreases map.entries.len() - i,
            {
                assert(decreases_to!(*value => value->Obj_0.entries@[i as int].1));
                assert(map@[i as int].1 == map.entries@[i as int].1@);
                referenced(&map.entries[i].1, out);
                assert(text::views(out@) =~= start + references_upto(value@, (i + 1) as nat));
                i = i + 1;
            }
        },
        Json::Arr(items) => {
            assert(text::views(out@) =~= start + own_reference(value@));
            let mut i: usize = 0;
            while i < items.len()
                invariant
                    i <= items.len(),
                    *value == Json::Arr(*items),
                    value@ == JView::Arr(text::views(items@)),
                    text::views(out@) == start + references_upto(value@, i as nat),
                decreases items.len() - i,
            {
                assert(decreases_to!(*value => value->Arr_0@[i as int]));
                referenced(&items[i], out);
                assert(text::views(out@) =~= start + references_upto(value@, (i + 1) as nat));
                i = i + 1;
            }
            assert(text::views(items@).len() == items@.len());
        },
        _ => {
            assert(start + references(value@) =~= start);
        },
    }
}

/// The names of the rooms among the first `n` references.
pub open spec fn targets(
    refs: Seq<(Seq<char>, Seq<char>)>,
    n: nat,
    room_names: JView,
) -> Seq<Seq<char>>
    decreases n,
{
    if n == 0 {
        seq![]
    } else {
        let rest = targets(refs, (n - 1) as nat, room_names);
        let (rid, rtype) = refs[n - 1];
        match json::as_str(room_names.get(rid)) {
            Some(name) => if rtype == "room"@ {
                rest.push(name)
            } else {
                rest
            },
            None => rest,
        }
    }
}

/// The ids that a behaviour may name a device by: its own and its buttons'.
pub open spec fn known_by(device: JView) -> Seq<Seq<char>> {
    seq![json::str_or(json::as_str(device.get("id"@)), ""@)] + json::strings(
        json::list_or_empty(json::as_array(device.get("buttons"@))),
    )
}

/// Whether one of the references names a device.
pub open spec fn names_device(refs: Seq<(Seq<char>, Seq<char>)>, device: JView) -> bool {
    exists|j: int| 0 <= j < refs.len() && known_by(device).contains(#[trigger] refs[j].0)
}

/// Whether a behaviour ties a device to a room.
pub open spec fn concerns(behaviour: JView, room_names: JView, device: JView) -> bool {
    let refs = references(behaviour);
    targets(refs, refs.len(), room_names).len() > 0 && names_device(refs, device)
}

/// The names of what a device controls.
pub open spec fn controls_of(device: JView) -> Seq<Seq<char>> {
    json::strings(json::list_or_empty(json::as_array(device.get("controls"@))))
}

/// Names, with those of the first `n` more that are not there yet.
pub open spec fn united(names: Seq<Seq<char>>, more: Seq<Seq<char>>, n: nat) -> Seq<Seq<char>>
    decreases n,
{
    if n == 0 {
        names
    } else {
        let rest = united(names, more, (n - 1) as nat);
        if rest.contains(more[n - 1]) {
            rest
        } else {
            rest.push(more[n - 1])
        }
    }
}

/// A device with what one behaviour says it controls.
pub open spec fn wired(device: JView, behaviour: JView, room_names: JView) -> JView {
    let refs = references(behaviour);
    let names = targets(refs, refs.len(), room_names);
    if concerns(behaviour, room_names, device) {
        catalog::set_member(
            device,
            "controls"@,
            json::string_array(united(controls_of(device), names, names.len())),
        )
    } else {
        device
    }
}

/// A device with what the first `n` behaviours say it controls.
pub open spec fn wired_upto(device: JView, data: Seq<JView>, n: nat, room_names: JView) -> JView
    decreases n,
{
    if n == 0 {
        device
    } else {
        wired(wired_upto(device, data, (n - 1) as nat, room_names), data[n - 1], room_names)
    }
}

/// Whether what a device controls can be written into it: it is an object, or null, which becomes
/// one, or no behaviour concerns it.
pub open spec fn can_be_wired(device: JView, data: Seq<JView>, room_names: JView) -> bool {
    ||| device is Obj
    ||| device is Null
    ||| forall|b: int| 0 <= b < data.len() ==> !concerns(#[trigger] data[b], room_names, device)
}

fn targets_in(refs: &Vec<(String, String)>, room_names: &Json) -> (r: Vec<String>)
    ensures
        text::views(r@) == targets(text::views(refs@), refs@.len(), room_names@),
        r@.len() == targets(text::views(refs@), refs@.len(), room_names@).len(),
{
    let mut out: Vec<String> = Vec::new();
    assert(text::views(out@) =~= seq![]);
    let mut i: usize = 0;
    while i < refs.len()
        invariant
            i <= refs.len(),
            text::views(out@) == targets(text::views(refs@), i as nat, room_names@),
        decreases refs.len() - i,
    {
        broadcast use text::views_push;

        assert(text::views(refs@)[i as int] == (refs@[i as int].0@, refs@[i as int].1@));
        match json::str_of(room_names.get(refs[i].0.as_str())) {
            Some(name) => {
                if text::same(refs[i].1.as_str(), "room") {
                    out.push(name.to_string());
                }
            },
            None => {},
        }
        i = i + 1;
    }
    assert(text::views(out@).len() == out@.len());
    out
}

fn is_named(refs: &Vec<(String, String)>, device: &Json) -> (r: bool)
    ensures
        r == names_device(text::views(refs@), device@),
{
    let id = match json::str_of(device.get("id")) {
        Some(s) => s,
        None => "",
    };
    let buttons = json::strings_of(device.get("buttons"));
    let ghost all = text::views(refs@);
    let ghost known = known_by(device@);
    assert(known =~= seq![id@] + text::views(buttons@));
    let mut i: usize = 0;
    while i < refs.len()
        invariant
            i <= refs.len(),
            all == text::views(refs@),
            known == known_by(device@),
            known == seq![id@] + text::views(buttons@),
            forall|j: int| 0 <= j < i ==> !known.contains(#[trigger] all[j].0),
        decreases refs.len() - i,
    {
        let rid = refs[i].0.as_str();
        assert(all[i as int].0 == rid@);
        if text::same(rid, id) {
            assert(known[0] == rid@);
            assert(known.contains(all[i as int].0));
            return true;
        }
        if text::has(&buttons, rid) {
            let ghost k = choose|k: int|
                0 <= k < text::views(buttons@).len() && text::views(buttons@)[k] == rid@;
            assert(known[k + 1] == rid@);
            assert(known.contains(all[i as int].0));
            return true;
        }
        assert(!known.contains(all[i as int].0)) by {
            if known.contains(rid@) {
                let k = choose|k: int| 0 <= k < known.len() && known[k] == rid@;
                if k > 0 {
                    assert(text::views(buttons@)[k - 1] == rid@);
                }
            }
        }
        i = i + 1;
    }
    assert(all.len() == refs@.len());
    false
}

fn add_names(names: Vec<String>, more: &Vec<String>) -> (r: Vec<String>)
    ensures
        text::views(r@) == united(text::views(names@), text::views(more@), more@.len()),
{
    let ghost start = text::views(names@);
    let mut out = names;
    let mut i: usize = 0;
    while i < more.len()
        invariant
            i <= more.len(),
            text::views(out@) == united(start, text::views(more@), i as nat),
        decreases more.len() - i,
    {
        broadcast use text::views_push;

        if !text::has(&out, more[i].as_str()) {
            out.push(more[i].clone());
        }
        i = i + 1;
    }
    out
}

fn apply_one(catalog: &mut Vec<Json>, behaviour: &Json, room_names: &Json)
    ensures
        final(catalog)@.len() == old(catalog)@.len(),
        forall|k: int|
            0 <= k < final(catalog)@.len() ==> (#[trigger] final(catalog)@[k])@ == wired(
                old(catalog)@[k]@,
                behaviour@,
                room_names@,
            ),
{
    let mut refs: Vec<(String, String)> = Vec::new();
    referenced(behaviour, &mut refs);
    assert(text::views(refs@) =~= references(behaviour@));
    assert(text::views(refs@).len() == refs@.len());
    let names = targets_in(&refs, room_names);
    if names.len() == 0 {
        return;
    }
    assert(text::views(names@).len() == names@.len());
    let mut i: usize = 0;
    while i < catalog.len()
        invariant
            i <= catalog.len(),
            catalog.len() == old(catalog).len(),
            text::views(refs@) == references(behaviour@),
            text::views(names@) == targets(
                references(behaviour@),
                references(behaviour@).len(),
                room_names@,
            ),
            text::views(names@).len() == names@.len(),
            names@.len() > 0,
            forall|k: int|
                0 <= k < i ==> (#[trigger] catalog@[k])@ == wired(
                    old(catalog)@[k]@,
                    behaviour@,
                    room_names@,
                ),
            forall|k: int| i <= k < catalog.len() ==> #[trigger] catalog@[k] == old(catalog)@[k],
        decreases catalog.len() - i,
    {
        if is_named(&refs, &catalog[i]) {
            let controls = add_names(json::strings_of(catalog[i].get("controls")), &names);
            let device = catalog::set_in(&catalog[i], "controls", Json::texts(&controls));
            catalog.set(i, device);
        }
        i = i + 1;
    }
}

fn is_concerned(behaviour: &Json, room_names: &Json, device: &Json) -> (r: bool)
    ensures
        r == concerns(behaviour@, room_names@, device@),
{
    let mut refs: Vec<(String, String)> = Vec::new();
    referenced(behaviour, &mut refs);
    assert(text::views(refs@) =~= references(behaviour@));
    assert(text::views(refs@).len() == refs@.len());
    targets_in(&refs, room_names).len() > 0 && is_named(&refs, device)
}

fn is_wirable(device: &Json, data: &Vec<Json>, room_names: &Json) -> (r: bool)
    ensures
        r == can_be_wired(device@, text::views(data@), room_names@),
{
    broadcast use {json::array_view, json::object_view};

    match device {
        Json::Obj(_) | Json::Null => {
            return true;
        },
        _ => {},
    }
    let mut b: usize = 0;
    while b < data.len()
        invariant
            b <= data.len(),
            !(device@ is Obj),
            !(device@ is Null),
            forall|k: int|
                0 <= k < b ==> !concerns(#[trigger] text::views(data@)[k], room_names@, device@),
        decreases data.len() - b,
    {
        if is_concerned(&data[b], room_names, device) {
            assert(concerns(text::views(data@)[b as int], room_names@, device@));
            return false;
        }
        b = b + 1;
    }
    assert(text::views(data@).len() == data@.len());
    true
}

/// Whether what the bridge's automations say can be written into every device.
pub fn can_apply(catalog: &Vec<Json>, behaviours: Option<&Json>, room_names: &Json) -> (r: bool)
    ensures
        r == (forall|i: int|
            0 <= i < catalog@.len() ==> can_be_wired(
                (#[trigger] catalog@[i])@,
                catalog::data_or_none(text::view_of(behaviours)),
                room_names@,
            )),
{
    let empty: Vec<Json> = Vec::new();
    assert(text::views(empty@) =~= seq![]);
    let data = match catalog::data_of(behaviours) {
        Some(data) => data,
        None => &empty,
    };
    let ghost found = catalog::data_or_none(text::view_of(behaviours));
    assert(text::views(data@) == found);
    let mut i: usize = 0;
    while i < catalog.len()
        invariant
            i <= catalog.len(),
            found == text::views(data@),
            found == catalog::data_or_none(text::view_of(behaviours)),
            forall|k: int|
                0 <= k < i ==> can_be_wired((#[trigger] catalog@[k])@, found, room_names@),
        decreases catalog.len() - i,
    {
        if !is_wirable(&catalog[i], data, room_names) {
            assert(!can_be_wired(catalog@[i as int]@, found, room_names@));
            return false;
        }
        i = i + 1;
    }
    true
}

/// Writes into each device the names of the rooms that the bridge's automations tie it to.
///
/// A suggestion. Nothing here takes over a Hue automation: a rule the household cannot see the
/// origin of is worse than no rule.
pub fn apply_behaviours(catalog: &mut Vec<Json>, behaviours: Option<&Json>, room_names: &Json)
    requires
        forall|i: int|
            0 <= i < old(catalog)@.len() ==> can_be_wired(
                (#[trigger] old(catalog)@[i])@,
                catalog::data_or_none(text::view_of(behaviours)),
                room_names@,
            ),
    ensures
        text::views(final(catalog)@) == text::views(old(catalog)@).map_values(
            |d: JView|
                wired_upto(
                    d,
                    catalog::data_or_none(text::view_of(behaviours)),
                    catalog::data_or_none(text::view_of(behaviours)).len(),
                    room_names@,
                ),
        ),
{
    match catalog::data_of(behaviours) {
        Some(data) => {
            let mut b: usize = 0;
            while b < data.len()
                invariant
                    b <= data.len(),
                    catalog@.len() == old(catalog)@.len(),
                    forall|k: int|
                        0 <= k < catalog@.len() ==> (#[trigger] catalog@[k])@ == wired_upto(
                            old(catalog)@[k]@,
                            text::views(data@),
                            b as nat,
                            room_names@,
                        ),
                decreases data.len() - b,
            {
                apply_one(catalog, &data[b], room_names);
                b = b + 1;
            }
            assert(text::views(data@).len() == data@.len());
        },
        None => {},
    }
    assert(text::views(catalog@) =~= text::views(old(catalog)@).map_values(
        |d: JView|
            wired_upto(
                d,
                catalog::data_or_none(text::view_of(behaviours)),
                catalog::data_or_none(text::view_of(behaviours)).len(),
                room_names@,
            ),
    ));
}

} // verus!
