//! Laws of what is heard and what is commanded.

use vstd::prelude::*;
use crate::bulb;
use crate::button;
use crate::catalog;
use crate::host;
use crate::host::{HostCallView, InstanceView};
use crate::imports;
use crate::json;
use crate::json::{JView, Members, NumberView};
use crate::number;
use crate::publish;
use crate::role;
use crate::role::Role;
use crate::sensor;
use crate::wire;

verus! {

proof fn body_keys_differ()
    ensures
        "on"@ != "dimming"@,
        "on"@ != "dynamics"@,
        "dimming"@ != "dynamics"@,
{
    reveal_strlit("on");
    reveal_strlit("dimming");
    reveal_strlit("dynamics");
    assert("on"@.len() == 2 && "dimming"@.len() == 7 && "dynamics"@.len() == 8);
}

/// A level of nothing switches the light off and sets no brightness; any other level switches it
/// on and sets exactly that brightness.
pub proof fn nothing_is_off(level: u8, ramp_ms: Option<u64>)
    ensures
        json::lookup(bulb::level_members(level, ramp_ms), "on"@) == Some(
            publish::switched(level > 0),
        ),
        json::lookup(bulb::level_members(level, ramp_ms), "dimming"@) == if level > 0 {
            Some(publish::dimmed(level))
        } else {
            None
        },
{
    body_keys_differ();
    let a = json::one("on"@, publish::switched(level > 0));
    json::lookup_put(seq![], "on"@, publish::switched(level > 0), "on"@);
    json::lookup_put(seq![], "on"@, publish::switched(level > 0), "dimming"@);
    json::lookup_put(a, "dimming"@, publish::dimmed(level), "on"@);
    json::lookup_put(a, "dimming"@, publish::dimmed(level), "dimming"@);
    let b = if level > 0 {
        json::put(a, "dimming"@, publish::dimmed(level))
    } else {
        a
    };
    match ramp_ms {
        Some(ms) => {
            let d = if ms < bulb::LONGEST_RAMP {
                ms
            } else {
                bulb::LONGEST_RAMP
            };
            let v = JView::Obj(json::one("duration"@, json::int_value(d)));
            json::lookup_put(b, "dynamics"@, v, "on"@);
            json::lookup_put(b, "dynamics"@, v, "dimming"@);
        },
        None => {},
    }
}

/// A light that is on is reported at a level from 1 to 100, whatever brightness the bridge writes.
pub proof fn brightness_is_a_percentage(brightness: Option<JView>)
    ensures
        number::brightness(brightness) matches Some(level) ==> 1 <= level <= 100,
{
}

/// The level that is reported of a light is at most 100 if the one remembered of it is, and it is
/// nothing if the bridge says that the light is off.
pub proof fn reported_levels_are_percentages(inst: InstanceView, light: JView)
    requires
        json::as_u64(host::remembered(inst, "level"@)) matches Some(known) ==> known <= 100,
    ensures
        bulb::light_level(inst, light) matches Some(level) ==> level <= 100,
        json::as_bool(light.get2("on"@, "on"@)) == Some(false) ==> bulb::light_level(inst, light)
            == Some(0u64),
{
    brightness_is_a_percentage(light.get2("dimming"@, "brightness"@));
}

proof fn scratch_keys_differ()
    ensures
        "on"@ != "level"@,
{
    reveal_strlit("on");
    reveal_strlit("level");
    assert("on"@.len() == 2 && "level"@.len() == 5);
}

proof fn remembered_after(inst: InstanceView, level: u64)
    ensures
        host::remembered(bulb::remembering(inst, level), "on"@) == Some(JView::Bool(level > 0)),
        host::remembered(bulb::remembering(inst, level), "level"@) == if level > 0 {
            Some(json::int_value(level))
        } else {
            host::remembered(inst, "level"@)
        },
        bulb::remembering(inst, level).properties == inst.properties,
{
    scratch_keys_differ();
    let a = if level > 0 {
        host::remember(inst, "level"@, json::int_value(level))
    } else {
        inst
    };
    json::lookup_put(inst.scratch, "level"@, json::int_value(level), "level"@);
    json::lookup_put(a.scratch, "on"@, JView::Bool(level > 0), "on"@);
    json::lookup_put(a.scratch, "on"@, JView::Bool(level > 0), "level"@);
}

/// A missing field means "unchanged": an event that says nothing of whether a light is on or how
/// bright it is leaves both as they were remembered.
pub proof fn a_missing_field_is_unchanged(inst: InstanceView, light: JView, level: u64, on: bool)
    requires
        light.get2("on"@, "on"@) is None,
        light.get2("dimming"@, "brightness"@) is None,
        host::remembered(inst, "level"@) == Some(json::int_value(level)),
        host::remembered(inst, "on"@) == Some(JView::Bool(on)),
        on ==> level > 0,
    ensures
        host::remembered(bulb::light_reported(inst, light).0, "level"@) == Some(
            json::int_value(level),
        ),
        host::remembered(bulb::light_reported(inst, light).0, "on"@) == Some(JView::Bool(on)),
{
    remembered_after(
        inst,
        if on {
            level
        } else {
            0
        },
    );
}

/// An event that says nothing of a light about which nothing is remembered reports no level and
/// changes nothing.
pub proof fn an_empty_event_changes_nothing(inst: InstanceView, light: JView)
    requires
        light.get2("on"@, "on"@) is None,
        light.get2("dimming"@, "brightness"@) is None,
        host::remembered(inst, "on"@) is None,
    ensures
        bulb::light_reported(inst, light).0 == inst,
        bulb::light_level(inst, light) is None,
{
}

/// The properties by which a device of a role knows the resources that are its own.
pub open spec fn own_properties(role: Role) -> Seq<Seq<char>> {
    match role {
        Role::Bridge => seq![],
        Role::Bulb => seq!["Light id"@],
        Role::Motion => seq!["Motion id"@, "Temperature id"@, "Light level id"@, "Power id"@],
        Role::Control => seq![
            "Button 1 id"@,
            "Button 2 id"@,
            "Button 3 id"@,
            "Button 4 id"@,
            "Rotary id"@,
            "Power id"@,
        ],
    }
}

/// Whether a resource is one of a device's own: its id is the one that such a property holds.
pub open spec fn is_own(inst: InstanceView, resource: JView) -> bool {
    exists|k: int|
        0 <= k < own_properties(role::role_of(inst)).len() && sensor::is_about(
            inst,
            #[trigger] own_properties(role::role_of(inst))[k],
            resource,
        )
}

/// A bulb's own resource is the one whose id is its light id.
pub proof fn a_bulbs_own_is_its_light(inst: InstanceView, light: Seq<char>, resource: JView)
    requires
        host::property(inst, "Light id"@) == Some(light),
        light.len() > 0,
    ensures
        is_own(inst, resource) <==> json::as_str(resource.get("id"@)) == Some(light),
{
    let list = own_properties(role::role_of(inst));
    assert(list.len() == 1 && list[0] == "Light id"@);
    assert(sensor::is_about(inst, list[0], resource) <==> json::as_str(resource.get("id"@)) == Some(
        light,
    ));
}

/// A resource that is not a device's own reports nothing and changes nothing.
pub proof fn only_own_resources_are_heard(inst: InstanceView, resource: JView)
    requires
        !is_own(inst, resource),
    ensures
        bulb::heard(inst, resource) == (inst, Seq::<HostCallView>::empty()),
{
    let role = role::role_of(inst);
    let list = own_properties(role);
    match role {
        Role::Bridge => {},
        Role::Bulb => {
            assert(!sensor::is_about(inst, list[0], resource));
        },
        Role::Motion => {
            assert(!sensor::is_about(inst, list[0], resource));
            assert(!sensor::is_about(inst, list[1], resource));
            assert(!sensor::is_about(inst, list[2], resource));
            assert(!sensor::is_about(inst, list[3], resource));
        },
        Role::Control => {
            assert(!sensor::is_about(inst, list[0], resource));
            assert(!sensor::is_about(inst, list[1], resource));
            assert(!sensor::is_about(inst, list[2], resource));
            assert(!sensor::is_about(inst, list[3], resource));
            assert(!sensor::is_about(inst, list[4], resource));
            assert(!sensor::is_about(inst, list[5], resource));
        },
    }
}

/// Hearing something never changes the properties of a device.
pub proof fn hearing_keeps_properties(inst: InstanceView, resource: JView)
    ensures
        bulb::heard(inst, resource).0.properties == inst.properties,
{
    match bulb::light_level(inst, resource) {
        Some(level) => {
            remembered_after(inst, level);
        },
        None => {},
    }
}

proof fn all_keep_properties(inst: InstanceView, resources: Seq<JView>, n: nat)
    ensures
        bulb::heard_all(inst, resources, n).0.properties == inst.properties,
    decreases n,
{
    if n > 0 {
        all_keep_properties(inst, resources, (n - 1) as nat);
        hearing_keeps_properties(
            bulb::heard_all(inst, resources, (n - 1) as nat).0,
            resources[n - 1],
        );
    }
}

/// Hearing some resources, and then some more, is hearing all of them at once: a device ends up the
/// same however an answer or a frame is cut.
pub proof fn hearing_goes_one_by_one(inst: InstanceView, a: Seq<JView>, b: Seq<JView>, n: nat)
    requires
        n <= b.len(),
    ensures
        ({
            let (middle, first) = bulb::heard_all(inst, a, a.len());
            let (last, second) = bulb::heard_all(middle, b, n);
            bulb::heard_all(inst, a + b, a.len() + n) == (last, first + second)
        }),
    decreases n,
{
    let (middle, first) = bulb::heard_all(inst, a, a.len());
    if n == 0 {
        heard_prefix(inst, a, a + b, a.len());
        assert(first + Seq::<HostCallView>::empty() =~= first);
    } else {
        hearing_goes_one_by_one(inst, a, b, (n - 1) as nat);
        assert((a + b)[a.len() + n - 1] == b[n - 1]);
        let (before, some) = bulb::heard_all(middle, b, (n - 1) as nat);
        let (_, more) = bulb::heard(before, b[n - 1]);
        assert((first + some) + more =~= first + (some + more));
    }
}

proof fn heard_prefix(inst: InstanceView, a: Seq<JView>, b: Seq<JView>, n: nat)
    requires
        n <= a.len() <= b.len(),
        forall|k: int| 0 <= k < a.len() ==> #[trigger] a[k] == b[k],
    ensures
        bulb::heard_all(inst, a, n) == bulb::heard_all(inst, b, n),
    decreases n,
{
    if n > 0 {
        heard_prefix(inst, a, b, (n - 1) as nat);
        assert(a[n - 1] == b[n - 1]);
    }
}

proof fn own_stays(a: InstanceView, b: InstanceView, resource: JView)
    requires
        a.properties == b.properties,
    ensures
        is_own(a, resource) <==> is_own(b, resource),
{
    let list = own_properties(role::role_of(a));
    assert(role::role_of(a) == role::role_of(b));
    assert forall|k: int| 0 <= k < list.len() implies sensor::is_about(
        a,
        #[trigger] list[k],
        resource,
    ) == sensor::is_about(b, list[k], resource) by {}
}

/// A whole answer of which nothing is a device's own reports nothing and changes nothing.
pub proof fn somebody_elses_answer_is_not_heard(inst: InstanceView, resources: Seq<JView>, n: nat)
    requires
        n <= resources.len(),
        forall|k: int| 0 <= k < n ==> !is_own(inst, #[trigger] resources[k]),
    ensures
        bulb::heard_all(inst, resources, n) == (inst, Seq::<HostCallView>::empty()),
    decreases n,
{
    if n > 0 {
        somebody_elses_answer_is_not_heard(inst, resources, (n - 1) as nat);
        only_own_resources_are_heard(inst, resources[n - 1]);
    }
}

/// Those of some resources that are a device's own.
pub open spec fn own_of(inst: InstanceView, resources: Seq<JView>) -> Seq<JView> {
    resources.filter(|r: JView| is_own(inst, r))
}

proof fn own_of_push(inst: InstanceView, resources: Seq<JView>, last: JView)
    ensures
        own_of(inst, resources.push(last)) == if is_own(inst, last) {
            own_of(inst, resources).push(last)
        } else {
            own_of(inst, resources)
        },
{
    reveal(Seq::filter);
    assert(resources.push(last).drop_last() =~= resources);
}

proof fn foreign_upto(
    inst: InstanceView,
    known: InstanceView,
    resources: Seq<JView>,
    n: nat,
)
    requires
        n <= resources.len(),
        inst.properties == known.properties,
    ensures
        ({
            let own = own_of(known, resources.take(n as int));
            bulb::heard_all(inst, resources, n) == bulb::heard_all(inst, own, own.len())
        }),
    decreases n,
{
    if n == 0 {
        assert(own_of(known, resources.take(0)) =~= seq![]) by {
            reveal(Seq::filter);
        }
    } else {
        foreign_upto(inst, known, resources, (n - 1) as nat);
        let some = own_of(known, resources.take(n - 1));
        let last = resources[n - 1];
        let before = bulb::heard_all(inst, resources, (n - 1) as nat).0;
        all_keep_properties(inst, resources, (n - 1) as nat);
        assert(resources.take(n as int) =~= resources.take(n - 1).push(last));
        own_of_push(known, resources.take(n - 1), last);
        if is_own(known, last) {
            let own = some.push(last);
            heard_prefix(inst, some, own, some.len());
            assert(own[own.len() - 1] == last);
        } else {
            own_stays(known, before, last);
            only_own_resources_are_heard(before, last);
            let calls = bulb::heard_all(inst, resources, (n - 1) as nat).1;
            assert(calls + Seq::<HostCallView>::empty() =~= calls);
        }
    }
}

/// What is not a device's own makes no difference to what it hears: leaving it out of an answer
/// leaves the reports and the device the same.
pub proof fn foreign_resources_make_no_difference(inst: InstanceView, resources: Seq<JView>)
    ensures
        bulb::heard_all(inst, resources, resources.len()) == bulb::heard_all(
            inst,
            own_of(inst, resources),
            own_of(inst, resources).len(),
        ),
{
    foreign_upto(inst, inst, resources, resources.len());
    assert(resources.take(resources.len() as int) =~= resources);
}

/// An update of the event stream with only a device's own resources in it.
pub open spec fn own_update(inst: InstanceView, update: JView) -> JView {
    match (update, json::as_array(update.get("data"@))) {
        (JView::Obj(members), Some(resources)) => JView::Obj(
            json::put(members, "data"@, JView::Arr(own_of(inst, resources))),
        ),
        _ => update,
    }
}

/// A frame of the event stream with only a device's own resources in it.
pub open spec fn own_frame(inst: InstanceView, frame: JView) -> JView {
    match frame {
        JView::Arr(updates) => JView::Arr(updates.map_values(|u: JView| own_update(inst, u))),
        _ => frame,
    }
}

proof fn own_data(inst: InstanceView, update: JView)
    ensures
        catalog::data_or_none(Some(own_update(inst, update))) == own_of(
            inst,
            catalog::data_or_none(Some(update)),
        ),
{
    broadcast use json::lookup_put;

    assert(own_of(inst, seq![]) =~= seq![]) by {
        reveal(Seq::filter);
    }
}

proof fn frames_keep_properties(inst: InstanceView, updates: Seq<JView>, n: nat)
    ensures
        bulb::heard_frame(inst, updates, n).0.properties == inst.properties,
    decreases n,
{
    if n > 0 {
        frames_keep_properties(inst, updates, (n - 1) as nat);
        let resources = catalog::data_or_none(Some(updates[n - 1]));
        all_keep_properties(
            bulb::heard_frame(inst, updates, (n - 1) as nat).0,
            resources,
            resources.len(),
        );
    }
}

proof fn foreign_updates(inst: InstanceView, updates: Seq<JView>, n: nat)
    requires
        n <= updates.len(),
    ensures
        bulb::heard_frame(inst, updates, n) == bulb::heard_frame(
            inst,
            updates.map_values(|u: JView| own_update(inst, u)),
            n,
        ),
    decreases n,
{
    if n > 0 {
        foreign_updates(inst, updates, (n - 1) as nat);
        let before = bulb::heard_frame(inst, updates, (n - 1) as nat).0;
        let resources = catalog::data_or_none(Some(updates[n - 1]));
        frames_keep_properties(inst, updates, (n - 1) as nat);
        foreign_upto(before, inst, resources, resources.len());
        assert(resources.take(resources.len() as int) =~= resources);
        own_data(inst, updates[n - 1]);
        assert(updates.map_values(|u: JView| own_update(inst, u))[n - 1] == own_update(
            inst,
            updates[n - 1],
        ));
    }
}

/// What is not a device's own makes no difference in a frame of the event stream either, however
/// it is spread over the updates of the frame.
pub proof fn a_frame_is_heard_by_its_own_lines(inst: InstanceView, frame: JView)
    ensures
        bulb::frame_heard(inst, frame) == bulb::frame_heard(inst, own_frame(inst, frame)),
{
    match frame {
        JView::Arr(updates) => {
            foreign_updates(inst, updates, updates.len());
        },
        _ => {},
    }
}

/// Two lines of the event stream that differ only in what is not a device's own are heard alike.
pub proof fn a_line_is_heard_by_its_own_resources(
    inst: InstanceView,
    args: Members,
    less: Members,
    line: Seq<char>,
    rest: Seq<char>,
    frame: JView,
)
    requires
        json::lookup(args, "data"@) == Some(JView::Str(line)),
        json::lookup(less, "data"@) == Some(JView::Str(rest)),
        wire::parsed(line) == Some(frame),
        wire::parsed(rest) == Some(own_frame(inst, frame)),
    ensures
        bulb::stream_heard(inst, args) == bulb::stream_heard(inst, less),
{
    a_frame_is_heard_by_its_own_lines(inst, frame);
}

proof fn nobodys_updates(inst: InstanceView, updates: Seq<JView>, n: nat)
    requires
        n <= updates.len(),
        forall|i: int, k: int|
            0 <= i < n && 0 <= k < catalog::data_or_none(Some(updates[i])).len() ==> !is_own(
                inst,
                #[trigger] catalog::data_or_none(Some(updates[i]))[k],
            ),
    ensures
        bulb::heard_frame(inst, updates, n) == (inst, Seq::<HostCallView>::empty()),
    decreases n,
{
    if n > 0 {
        nobodys_updates(inst, updates, (n - 1) as nat);
        let resources = catalog::data_or_none(Some(updates[n - 1]));
        somebody_elses_answer_is_not_heard(inst, resources, resources.len());
    }
}

/// A line of the event stream that is no document, or names nothing of a device's own, reports
/// nothing and changes nothing.
pub proof fn somebody_elses_line_is_not_heard(inst: InstanceView, args: Members, line: Seq<char>)
    requires
        json::lookup(args, "data"@) == Some(JView::Str(line)),
        wire::parsed(line) matches Some(JView::Arr(updates)) ==> forall|i: int, k: int|
            0 <= i < updates.len() && 0 <= k < catalog::data_or_none(Some(updates[i])).len()
                ==> !is_own(inst, #[trigger] catalog::data_or_none(Some(updates[i]))[k]),
    ensures
        bulb::stream_heard(inst, args) == (inst, Seq::<HostCallView>::empty()),
{
    match wire::parsed(line) {
        Some(JView::Arr(updates)) => {
            nobodys_updates(inst, updates, updates.len());
        },
        _ => {},
    }
}

/// The bridge hears nothing of its own stream: everything on it belongs to something behind it.
pub proof fn the_bridge_hears_nothing(inst: InstanceView, updates: Seq<JView>, n: nat)
    requires
        n <= updates.len(),
        role::role_of(inst) == Role::Bridge,
    ensures
        bulb::heard_frame(inst, updates, n) == (inst, Seq::<HostCallView>::empty()),
    decreases n,
{
    if n > 0 {
        the_bridge_hears_nothing(inst, updates, (n - 1) as nat);
        let resources = catalog::data_or_none(Some(updates[n - 1]));
        bridge_hears_none(inst, resources, resources.len());
    }
}

proof fn bridge_hears_none(inst: InstanceView, resources: Seq<JView>, n: nat)
    requires
        n <= resources.len(),
        role::role_of(inst) == Role::Bridge,
    ensures
        bulb::heard_all(inst, resources, n) == (inst, Seq::<HostCallView>::empty()),
    decreases n,
{
    if n > 0 {
        bridge_hears_none(inst, resources, (n - 1) as nat);
    }
}

/// The press at the start of every interaction is never reported.
pub proof fn an_initial_press_is_not_reported(key: u64, resource: JView)
    requires
        button::event_of(resource) == Some("initial_press"@),
    ensures
        button::press_calls(key, resource).len() == 0,
{
    reveal_strlit("initial_press");
    reveal_strlit("short_release");
    reveal_strlit("double_short_release");
    reveal_strlit("triple_short_release");
    reveal_strlit("long_press");
    reveal_strlit("long_release");
    reveal_strlit("repeat");
    let e = "initial_press"@;
    assert(e.len() == 13 && e[0] == 'i');
    assert("short_release"@[0] == 's');
    assert("double_short_release"@[0] == 'd');
    assert("triple_short_release"@[0] == 't');
    assert("long_press"@[0] == 'l');
    assert("long_release"@[0] == 'l');
    assert("repeat"@[0] == 'r');
}

/// Everything that a control reports comes from its one binding, and a press names a key from 1 to
/// 4.
pub proof fn a_remote_is_one_binding(inst: InstanceView, resource: JView, k: int)
    requires
        0 <= k < button::reported(inst, resource).len(),
    ensures
        match button::reported(inst, resource)[k] {
            HostCallView::Notify { proxy, .. } => proxy == imports::KEYPAD,
            HostCallView::SetState { proxy, .. } => proxy == imports::KEYPAD,
            _ => false,
        },
        button::key_of(inst, resource) matches Some(key) ==> 1 <= key <= 4,
{
}

/// Nothing is asked of a button at start: its last event would be taken for a new one.
pub proof fn buttons_are_not_read_at_start()
    ensures
        !bulb::at_start().contains("button"@),
{
    reveal_strlit("button");
    reveal_strlit("light");
    reveal_strlit("motion");
    reveal_strlit("temperature");
    reveal_strlit("light_level");
    reveal_strlit("device_power");
    assert("button"@.len() == 6 && "button"@[0] == 'b');
    assert("light"@[0] == 'l' && "motion"@[0] == 'm' && "temperature"@[0] == 't'
        && "light_level"@[0] == 'l' && "device_power"@[0] == 'd');
    let list = bulb::at_start();
    assert forall|k: int| 0 <= k < list.len() implies list[k] != "button"@ by {
        if k == 0 {
        } else if k == 1 {
        } else if k == 2 {
        } else if k == 3 {
        } else {
            assert(k == 4);
        }
    }
}

/// Whether a call reports that something can be reached.
pub open spec fn is_report(call: HostCallView) -> bool {
    call is Notify
}

/// Everything behind the bridge asks for nothing when it starts.
pub proof fn only_the_bridge_asks(inst: InstanceView, k: int)
    requires
        role::role_of(inst) != Role::Bridge,
        0 <= k < bulb::bound(inst).len(),
    ensures
        is_report(bulb::bound(inst)[k]),
{
    let role = role::role_of(inst);
    let bindings = role::bindings_of(role, inst).map_values(|b: u32| bulb::online(b));
    assert(bulb::bound(inst) == bindings);
    assert(bindings[k] == bulb::online(role::bindings_of(role, inst)[k]));
}

/// A bridge that is connected opens its event stream once, and reads each collection of states
/// once.
pub proof fn the_bridge_opens_one_stream(inst: InstanceView, bridge: Seq<char>, key: Seq<char>)
    requires
        role::role_of(inst) == Role::Bridge,
        host::property(inst, "Bridge address"@) == Some(bridge),
        host::property(inst, "Application key"@) == Some(key),
    ensures
        bulb::bound(inst).len() == 7,
        is_report(bulb::bound(inst)[0]),
        bulb::bound(inst)[1] is Tx,
        forall|k: int|
            0 <= k < 5 ==> #[trigger] bulb::bound(inst)[k + 2] == bulb::collection_read(
                bridge,
                key,
                bulb::at_start()[k],
            ),
{
    let role = role::role_of(inst);
    let bindings = role::bindings_of(role, inst).map_values(|b: u32| bulb::online(b));
    assert(bindings.len() == 1);
    assert(bindings[0] == bulb::online(1));
    let opening = bulb::opening(bridge, key);
    assert(bulb::bound(inst) == bindings + opening);
    assert(opening.len() == 6);
    assert forall|k: int| 0 <= k < 5 implies #[trigger] bulb::bound(inst)[k + 2]
        == bulb::collection_read(bridge, key, bulb::at_start()[k]) by {
        assert(bulb::bound(inst)[k + 2] == opening[k + 1]);
    }
}

/// Whether a call goes to the bridge.
pub open spec fn is_request(call: HostCallView) -> bool {
    call is Http || call is Tx
}

/// A command sends at most one request, and sends it first; a command that cannot be carried out
/// is one warning, sends nothing and changes nothing.
pub proof fn a_command_is_one_request(
    inst: InstanceView,
    cmd: Seq<char>,
    args: Members,
    x: NumberView,
    y: NumberView,
)
    ensures
        ({
            let (after, calls) = bulb::commanded(inst, cmd, args, x, y);
            &&& calls.len() > 0
            &&& forall|k: int| 1 <= k < calls.len() ==> !is_request(#[trigger] calls[k])
            &&& !is_request(calls[0]) ==> after == inst && calls.len() == 1 && calls[0] is Warn
            &&& after.properties == inst.properties
        }),
{
    match bulb::ordered(inst, cmd, args, x, y) {
        Some(order) => match order.level {
            Some(level) => {
                remembered_after(inst, level as u64);
            },
            None => {},
        },
        None => {},
    }
}

proof fn commands_differ()
    ensures
        "on"@ != "off"@,
        "on"@ != "toggle"@,
        "on"@ != "set_level"@,
        "off"@ != "toggle"@,
        "off"@ != "set_level"@,
        "toggle"@ != "set_level"@,
        "on"@ != "set_cct"@,
        "on"@ != "set_color"@,
        "off"@ != "set_cct"@,
        "off"@ != "set_color"@,
        "toggle"@ != "set_cct"@,
        "toggle"@ != "set_color"@,
        "set_level"@ != "set_cct"@,
        "set_level"@ != "set_color"@,
        "set_cct"@ != "set_color"@,
{
    reveal_strlit("on");
    reveal_strlit("off");
    reveal_strlit("toggle");
    reveal_strlit("set_level");
    reveal_strlit("set_cct");
    reveal_strlit("set_color");
    assert("on"@.len() == 2 && "off"@.len() == 3 && "toggle"@.len() == 6);
    assert("set_level"@.len() == 9 && "set_level"@[4] == 'l');
    assert("set_color"@.len() == 9 && "set_color"@[4] == 'c');
    assert("set_cct"@.len() == 7);
}

/// Whether the light of a device can be reached.
pub open spec fn is_reachable(inst: InstanceView) -> bool {
    host::has_property(inst, "Bridge address"@) && host::has_property(inst, "Light id"@)
}

/// A light that is switched off and on again comes back at the level it was brought to before.
pub proof fn on_restores_the_level(
    inst: InstanceView,
    args: Members,
    level: u8,
    more: Members,
    most: Members,
    x: NumberView,
    y: NumberView,
)
    requires
        is_reachable(inst),
        level > 0,
        json::lookup(args, "level"@) == Some(json::int_value(level as u64)),
    ensures
        ({
            let set = bulb::commanded(inst, "set_level"@, args, x, y).0;
            let off = bulb::commanded(set, "off"@, more, x, y).0;
            let (on, calls) = bulb::commanded(off, "on"@, most, x, y);
            &&& host::remembered(on, "level"@) == Some(json::int_value(level as u64))
            &&& host::remembered(on, "on"@) == Some(JView::Bool(true))
            &&& host::remembered(off, "on"@) == Some(JView::Bool(false))
            &&& calls.len() == 2
            &&& calls[1] == bulb::level_changed(level as u64)
        }),
{
    commands_differ();
    let set = bulb::commanded(inst, "set_level"@, args, x, y).0;
    assert(level as u64 % 256 == level);
    assert(bulb::ordered(inst, "set_level"@, args, x, y) == Some(
        bulb::to_level(level, json::as_u64(json::lookup(args, "ramp_ms"@))),
    ));
    assert(set == bulb::remembering(inst, level as u64));
    remembered_after(inst, level as u64);
    let off = bulb::commanded(set, "off"@, more, x, y).0;
    assert(off == bulb::remembering(set, 0));
    remembered_after(set, 0);
    let (on, calls) = bulb::commanded(off, "on"@, most, x, y);
    assert(bulb::last_level(off) == level);
    assert(on == bulb::remembering(off, level as u64));
    remembered_after(off, level as u64);
}

/// A light that is toggled twice is back at the level it was at.
pub proof fn toggling_twice_is_nothing(
    inst: InstanceView,
    level: u8,
    args: Members,
    more: Members,
    x: NumberView,
    y: NumberView,
)
    requires
        is_reachable(inst),
        level > 0,
        host::remembered(inst, "level"@) == Some(json::int_value(level as u64)),
        host::remembered(inst, "on"@) == Some(JView::Bool(true)),
    ensures
        ({
            let once = bulb::commanded(inst, "toggle"@, args, x, y).0;
            let twice = bulb::commanded(once, "toggle"@, more, x, y).0;
            &&& host::remembered(once, "on"@) == Some(JView::Bool(false))
            &&& host::remembered(twice, "on"@) == Some(JView::Bool(true))
            &&& host::remembered(twice, "level"@) == Some(json::int_value(level as u64))
        }),
{
    commands_differ();
    let once = bulb::commanded(inst, "toggle"@, args, x, y).0;
    assert(once == bulb::remembering(inst, 0));
    remembered_after(inst, 0);
    let twice = bulb::commanded(once, "toggle"@, more, x, y).0;
    assert(level as u64 % 256 == level);
    assert(bulb::last_level(once) == level);
    assert(twice == bulb::remembering(once, level as u64));
    remembered_after(once, level as u64);
}

/// A light never remembers that it was last at a level of nothing, whatever is commanded.
pub proof fn the_remembered_level_is_never_nothing(
    inst: InstanceView,
    cmd: Seq<char>,
    args: Members,
    x: NumberView,
    y: NumberView,
)
    requires
        host::remembered(inst, "level"@) != Some(json::int_value(0)),
    ensures
        host::remembered(bulb::commanded(inst, cmd, args, x, y).0, "level"@) != Some(
            json::int_value(0),
        ),
{
    match bulb::ordered(inst, cmd, args, x, y) {
        Some(order) => match order.level {
            Some(level) => {
                remembered_after(inst, level as u64);
            },
            None => {},
        },
        None => {},
    }
}

/// Nor does it after anything that is heard.
pub proof fn hearing_never_remembers_nothing(inst: InstanceView, resource: JView)
    requires
        host::remembered(inst, "level"@) != Some(json::int_value(0)),
    ensures
        host::remembered(bulb::heard(inst, resource).0, "level"@) != Some(json::int_value(0)),
{
    match bulb::light_level(inst, resource) {
        Some(level) => {
            remembered_after(inst, level);
        },
        None => {},
    }
}

/// The level that is remembered after a command is at most 100 if the one before it was and the one
/// asked for is.
pub proof fn commanded_levels_are_percentages(
    inst: InstanceView,
    cmd: Seq<char>,
    args: Members,
    x: NumberView,
    y: NumberView,
)
    requires
        json::as_u64(host::remembered(inst, "level"@)) matches Some(known) ==> known <= 100,
        json::as_u64(json::lookup(args, "level"@)) matches Some(asked) ==> asked <= 100,
    ensures
        json::as_u64(host::remembered(bulb::commanded(inst, cmd, args, x, y).0, "level"@)) matches Some(
            known,
        ) ==> known <= 100,
{
    match bulb::ordered(inst, cmd, args, x, y) {
        Some(order) => match order.level {
            Some(level) => {
                remembered_after(inst, level as u64);
            },
            None => {},
        },
        None => {},
    }
}

/// A colour temperature is sent as far as a bulb goes.
pub proof fn colour_temperatures_stay_in_range(kelvin: u64)
    ensures
        153 <= number::mirek_of(kelvin) <= 500,
{
}

/// A brightness is rounded to the nearest whole number, halves up: twice the rounded number is
/// within one of twice the number itself.
pub proof fn levels_are_rounded_to_the_nearest(d: number::Decimal)
    requires
        d.exp < 0,
    ensures
        ({
            let p = number::pow10((0 - d.exp) as nat);
            &&& 2 * p * number::rounded(d) <= 2 * d.digits + p
            &&& 2 * d.digits + p < 2 * p * number::rounded(d) + 2 * p
        }),
{
    let p = number::pow10((0 - d.exp) as nat) as int;
    pow10_positive((0 - d.exp) as nat);
    let t = 2 * d.digits + p;
    let r = number::rounded(d) as int;
    assert(r == t / (2 * p));
    assert(2 * p * r <= t && t < 2 * p * r + 2 * p) by (nonlinear_arith)
        requires
            r == t / (2 * p),
            p > 0,
    ;
}

proof fn pow10_positive(k: nat)
    ensures
        number::pow10(k) > 0,
    decreases k,
{
    if k > 0 {
        pow10_positive((k - 1) as nat);
    }
}

} // verus!
