//! Laws of setting a bridge up.

use vstd::prelude::*;
use crate::behaviour;
use crate::catalog;
use crate::host::{CandidateView, ImportedRuleView, ImportedSceneView, SetupStepView};
use crate::json;
use crate::json::{JView, Members};
use crate::offer;
use crate::setup;
use crate::setup::{Outcome, SetupStateView};
use crate::steps;
use crate::text;

verus! {

pub(crate) proof fn phases()
    ensures
        "start"@[0] == 's' && "start"@.len() == 5,
        "probe"@[0] == 'p' && "probe"@[1] == 'r' && "probe"@.len() == 5,
        "probed"@[0] == 'p' && "probed"@[1] == 'r' && "probed"@.len() == 6,
        "pair"@[0] == 'p' && "pair"@[1] == 'a' && "pair"@.len() == 4,
        "paired"@[0] == 'p' && "paired"@[1] == 'a' && "paired"@.len() == 6,
        "devices"@[0] == 'd',
        "buttons"@[0] == 'b' && "buttons"@.len() == 7,
        "rooms"@[0] == 'r',
        "behaviours"@[0] == 'b' && "behaviours"@.len() == 10,
        "hue_scenes"@[0] == 'h',
        "lights"@[0] == 'l',
        "chosen"@[0] == 'c',
        "scene_choice"@[0] == 's' && "scene_choice"@.len() == 12,
{
    reveal_strlit("start");
    reveal_strlit("probe");
    reveal_strlit("probed");
    reveal_strlit("pair");
    reveal_strlit("paired");
    reveal_strlit("devices");
    reveal_strlit("buttons");
    reveal_strlit("rooms");
    reveal_strlit("behaviours");
    reveal_strlit("hue_scenes");
    reveal_strlit("lights");
    reveal_strlit("chosen");
    reveal_strlit("scene_choice");
}

pub(crate) proof fn state_keys()
    ensures
        "phase"@[0] == 'p' && "phase"@[1] == 'h',
        "parent"@[0] == 'p' && "parent"@[1] == 'a',
        "address"@[0] == 'a' && "address"@[1] == 'd',
        "attempt"@[0] == 'a' && "attempt"@[1] == 't',
        "key"@[0] == 'k',
        "browse"@[0] == 'b',
        "catalog"@[0] == 'c',
        "rooms"@[0] == 'r',
        "hue_scenes"@[0] == 'h',
        "name"@[0] == 'n',
{
    reveal_strlit("phase");
    reveal_strlit("parent");
    reveal_strlit("address");
    reveal_strlit("attempt");
    reveal_strlit("key");
    reveal_strlit("browse");
    reveal_strlit("catalog");
    reveal_strlit("rooms");
    reveal_strlit("hue_scenes");
    reveal_strlit("name");
}

/// The phases of listing what is paired to a bridge, and what each is followed by.
pub open spec fn listing_after(phase: Seq<char>) -> Option<Seq<char>> {
    if phase == "devices"@ {
        Some("buttons"@)
    } else if phase == "buttons"@ {
        Some("rooms"@)
    } else if phase == "rooms"@ {
        Some("behaviours"@)
    } else if phase == "behaviours"@ {
        Some("hue_scenes"@)
    } else if phase == "hue_scenes"@ {
        Some("lights"@)
    } else if phase == "lights"@ {
        Some("chosen"@)
    } else {
        None
    }
}

/// Whether a state is in a phase, with the connection and what is being browsed carried over.
pub open spec fn carries_on(
    next: SetupStateView,
    phase: Seq<char>,
    values: JView,
    input: Members,
) -> bool {
    next matches SetupStateView::Values(v) && {
        &&& setup::phase_of(v) == phase
        &&& v.get("address"@) == Some(JView::Str(setup::known_address(values, input)))
        &&& v.get("key"@) == Some(JView::Str(setup::text_or_empty(values, "key"@)))
        &&& v.get("browse"@) == Some(JView::Bool(setup::is_browsing(values)))
        &&& v.get("parent"@) == Some(json::or_null(values.get("parent"@)))
    }
}

/// Whether an object has the phase, the connection and what is being browsed.
spec fn holds_state(
    m: Members,
    values: JView,
    phase: Seq<char>,
    address: Seq<char>,
    key: Seq<char>,
) -> bool {
    &&& json::lookup(m, "phase"@) == Some(JView::Str(phase))
    &&& json::lookup(m, "address"@) == Some(JView::Str(address))
    &&& json::lookup(m, "key"@) == Some(JView::Str(key))
    &&& json::lookup(m, "browse"@) == Some(JView::Bool(setup::is_browsing(values)))
    &&& json::lookup(m, "parent"@) == Some(json::or_null(values.get("parent"@)))
}

proof fn carried_holds(values: JView, phase: Seq<char>, address: Seq<char>, key: Seq<char>)
    ensures
        holds_state(setup::carried(values, phase, address, key), values, phase, address, key),
{
    broadcast use json::lookup_put;

    state_keys();
}

proof fn adding_keeps(
    m: Members,
    key: Seq<char>,
    value: JView,
    values: JView,
    phase: Seq<char>,
    address: Seq<char>,
    secret: Seq<char>,
)
    requires
        key == "catalog"@ || key == "rooms"@ || key == "hue_scenes"@,
        holds_state(m, values, phase, address, secret),
    ensures
        holds_state(json::put(m, key, value), values, phase, address, secret),
{
    broadcast use json::lookup_put;

    state_keys();
}

/// What is paired to a bridge is listed in turn, and nothing is lost on the way: each phase leads
/// to the next, and carries over the address, the key, and what is being browsed, until everything
/// is offered. Only the last of them can fail.
pub proof fn listing_goes_in_turn(
    values: JView,
    input: Members,
    chosen: Seq<CandidateView>,
    next: Seq<char>,
)
    requires
        listing_after(setup::phase_of(values)) == Some(next),
    ensures
        ({
            let (step, state) = steps::stepped(SetupStateView::Values(values), input, chosen);
            if step is Failed {
                setup::phase_of(values) == "lights"@ && state == setup::over()
            } else {
                &&& carries_on(state, next, values, input)
                &&& setup::phase_of(values) == "lights"@ ==> step is Choose
                &&& setup::phase_of(values) != "lights"@ ==> step is Fetch
            }
        }),
{
    phases();
    let at = setup::phase_of(values);
    let address = setup::known_address(values, input);
    let key = setup::text_or_empty(values, "key"@);
    let data = catalog::data_or_none(json::lookup(input, "response"@));
    let response = json::lookup(input, "response"@);
    let found = setup::gathered(values);
    let base = setup::carried(values, next, address, key);
    carried_holds(values, next, address, key);
    let outcome = steps::stepped(SetupStateView::Values(values), input, chosen);
    if at == "devices"@ || at == "buttons"@ {
        let list = if at == "devices"@ {
            catalog::compacted(data, data.len())
        } else {
            found.map_values(|d: JView| catalog::ordered(d, data))
        };
        adding_keeps(base, "catalog"@, JView::Arr(list), values, next, address, key);
        assert(outcome.1 == setup::state_of(json::put(base, "catalog"@, JView::Arr(list))));
    } else if at == "rooms"@ || at == "behaviours"@ {
        let names = if at == "rooms"@ {
            JView::Obj(catalog::names_upto(data, data.len()))
        } else {
            json::or_null(values.get("rooms"@))
        };
        let list = if at == "rooms"@ {
            found.map_values(|d: JView| catalog::placed(d, catalog::groups(response)))
        } else {
            found.map_values(|d: JView| behaviour::wired_upto(d, data, data.len(), names))
        };
        let some = json::put(base, "catalog"@, JView::Arr(list));
        adding_keeps(base, "catalog"@, JView::Arr(list), values, next, address, key);
        adding_keeps(some, "rooms"@, names, values, next, address, key);
        assert(outcome.1 == setup::state_of(json::put(some, "rooms"@, names)));
    } else {
        let a = steps::keeping(base, values, "catalog"@);
        let b = steps::keeping(a, values, "rooms"@);
        let scenes = if at == "hue_scenes"@ {
            json::or_null(response)
        } else {
            json::or_null(values.get("hue_scenes"@))
        };
        adding_keeps(
            base,
            "catalog"@,
            json::or_null(values.get("catalog"@)),
            values,
            next,
            address,
            key,
        );
        adding_keeps(a, "rooms"@, json::or_null(values.get("rooms"@)), values, next, address, key);
        adding_keeps(b, "hue_scenes"@, scenes, values, next, address, key);
        assert(outcome.0 is Failed || outcome.1 == setup::state_of(
            json::put(b, "hue_scenes"@, scenes),
        ));
    }
}

/// A step that gives up, or is done, leaves nothing behind: the next one starts anew.
pub proof fn the_end_leaves_nothing(
    state: SetupStateView,
    input: Members,
    chosen: Seq<CandidateView>,
)
    requires
        steps::stepped(state, input, chosen).0 is Failed || steps::stepped(state, input, chosen).0
            is Done,
    ensures
        steps::stepped(state, input, chosen).1 == setup::over(),
        setup::phase_of(JView::Null) == "start"@,
{
}

/// The attempt that a state carries.
pub open spec fn attempt_in(state: SetupStateView) -> Option<u64> {
    match state {
        SetupStateView::Values(values) => json::as_u64(values.get("attempt"@)),
        SetupStateView::SceneChoice { .. } => None,
    }
}

/// Asking for a key counts the attempt.
pub proof fn asking_counts_an_attempt(values: JView, input: Members, chosen: Seq<CandidateView>)
    requires
        setup::phase_of(values) == "pair"@,
        steps::attempts(values, 0) < u64::MAX,
    ensures
        attempt_in(steps::stepped(SetupStateView::Values(values), input, chosen).1) == Some(
            (steps::attempts(values, 0) + 1) as u64,
        ),
        steps::stepped(SetupStateView::Values(values), input, chosen).1 matches SetupStateView::Values(
            v,
        ) && setup::phase_of(v) == "paired"@,
{
    broadcast use json::lookup_put;

    phases();
    state_keys();
}

/// Waiting for the link button ends: a step waits only below the limit of attempts, keeps the count
/// and asks again, so that no more attempts are made than the limit.
pub proof fn waiting_ends(values: JView, input: Members, chosen: Seq<CandidateView>)
    requires
        setup::phase_of(values) == "paired"@,
        steps::stepped(SetupStateView::Values(values), input, chosen).0 is Wait,
    ensures
        steps::attempts(values, 1) < setup::ATTEMPTS,
        attempt_in(steps::stepped(SetupStateView::Values(values), input, chosen).1) == Some(
            steps::attempts(values, 1),
        ),
        steps::stepped(SetupStateView::Values(values), input, chosen).1 matches SetupStateView::Values(
            v,
        ) && setup::phase_of(v) == "pair"@ && v.get("address"@) == Some(
            JView::Str(setup::known_address(values, input)),
        ),
{
    broadcast use json::lookup_put;

    phases();
    state_keys();
}

/// A key that the bridge hands out is the one that everything after it is read with.
pub proof fn a_key_is_used(
    values: JView,
    input: Members,
    chosen: Seq<CandidateView>,
    key: Seq<char>,
)
    requires
        setup::phase_of(values) == "paired"@,
        steps::first_text(input, "success"@, "username"@) == Some(key),
    ensures
        ({
            let (step, state) = steps::stepped(SetupStateView::Values(values), input, chosen);
            &&& step == setup::fetched(
                setup::known_address(values, input),
                "/clip/v2/resource/device"@,
                key,
                "reading what is paired to the bridge"@,
            )
            &&& state matches SetupStateView::Values(v) && setup::phase_of(v) == "devices"@
                && v.get("key"@) == Some(JView::Str(key)) && v.get("address"@) == Some(
                JView::Str(setup::known_address(values, input)),
            )
        }),
{
    broadcast use json::lookup_put;

    phases();
    state_keys();
}

/// Browsing a bridge that is already set up asks nobody to press anything: the listing starts at
/// once, with the address and the key that the bridge has.
pub proof fn browsing_needs_no_button(values: JView, input: Members, chosen: Seq<CandidateView>)
    requires
        setup::phase_of(values) == "start"@,
        setup::is_browsing(values),
        setup::text_or_empty(values, "Bridge address"@).len() > 0,
        setup::text_or_empty(values, "Application key"@).len() > 0,
    ensures
        ({
            let (step, state) = steps::stepped(SetupStateView::Values(values), input, chosen);
            &&& step is Fetch
            &&& state matches SetupStateView::Values(v) && setup::phase_of(v) == "devices"@
                && setup::is_browsing(v) && v.get("address"@) == values.get("Bridge address"@)
                && v.get("key"@) == values.get("Application key"@)
        }),
{
    broadcast use json::lookup_put;

    phases();
    state_keys();
    reveal_strlit("");
}

/// A bridge that has accessories and no bulbs of its own is not refused.
pub proof fn accessories_are_enough(values: JView, input: Members, chosen: Seq<CandidateView>)
    requires
        setup::phase_of(values) == "lights"@,
        steps::list_refused(input) is None,
        offer::offers(
            setup::gathered(values),
            setup::gathered(values).len(),
            setup::known_address(values, input),
            setup::text_or_empty(values, "key"@),
        ).len() > 0,
    ensures
        steps::stepped(SetupStateView::Values(values), input, chosen).0 is Choose,
{
    phases();
}

proof fn bulbs_by_label(
    data: Seq<JView>,
    n: nat,
    address: Seq<char>,
    key: Seq<char>,
    found: Seq<JView>,
)
    requires
        n <= data.len(),
    ensures
        crate::laws::offer::by_label(steps::bulbs_upto(data, n, address, key, found)),
    decreases n,
{
    if n > 0 {
        bulbs_by_label(data, (n - 1) as nat, address, key, found);
        match steps::bulb_of(data[n - 1], address, key, found) {
            Some(c) => {
                crate::laws::offer::placing_keeps_labels_in_order(
                    steps::bulbs_upto(data, (n - 1) as nat, address, key, found),
                    c,
                );
            },
            None => {},
        }
    }
}

/// What there is to choose from is the bulbs, by label, and then the accessories, by label.
pub proof fn choices_come_by_label(values: JView, input: Members)
    requires
        steps::lights_answered(values, input).0 is Choose,
    ensures
        ({
            let address = setup::known_address(values, input);
            let key = setup::text_or_empty(values, "key"@);
            let found = setup::gathered(values);
            let data = catalog::data_or_none(json::lookup(input, "response"@));
            let bulbs = steps::bulbs_upto(data, data.len(), address, key, found);
            let extras = offer::offers(found, found.len(), address, key);
            &&& crate::laws::offer::by_label(bulbs)
            &&& crate::laws::offer::by_label(extras)
            &&& steps::lights_answered(values, input).0 matches SetupStepView::Choose {
                options,
                ..
            } && options == bulbs + extras
        }),
{
    let address = setup::known_address(values, input);
    let key = setup::text_or_empty(values, "key"@);
    let found = setup::gathered(values);
    let data = catalog::data_or_none(json::lookup(input, "response"@));
    bulbs_by_label(data, data.len(), address, key, found);
    crate::laws::offer::offers_come_by_label(found, address, key, ""@);
}

/// A device behind a bridge does not hold the connection, and loses nothing else by it.
pub proof fn the_bridge_holds_the_connection(c: CandidateView, other: Seq<char>)
    ensures
        json::lookup(steps::bare(c).properties, "Bridge address"@) is None,
        json::lookup(steps::bare(c).properties, "Application key"@) is None,
        other != "Bridge address"@ && other != "Application key"@ ==> json::lookup(
            steps::bare(c).properties,
            other,
        ) == json::lookup(c.properties, other),
        steps::bare(c).driver_id == c.driver_id,
{
    broadcast use json::lookup_without;

}

/// The devices, the rules and the scenes that choosing ends in, whether or not the question about
/// the scenes is still open.
pub open spec fn taken(outcome: Outcome) -> Option<
    (Seq<CandidateView>, Seq<ImportedRuleView>, Seq<ImportedSceneView>),
> {
    match outcome {
        (SetupStepView::Done { devices, rules, scenes }, _) => Some((devices, rules, scenes)),
        (_, SetupStateView::SceneChoice { devices, rules, scenes }) => Some(
            (devices, rules, scenes),
        ),
        _ => None,
    }
}

/// What is chosen is what is taken. Setting a bridge up puts the bridge in front of it; browsing
/// one adds only what is behind it.
pub proof fn what_is_chosen_is_taken(values: JView, input: Members, chosen: Seq<CandidateView>)
    ensures
        taken(steps::choice_made(values, input, chosen)) matches Some((devices, _, _)) && {
            let behind = chosen.map_values(|c: CandidateView| steps::bare(c));
            if setup::is_browsing(values) {
                devices == behind
            } else {
                &&& devices.len() == chosen.len() + 1
                &&& devices[0].driver_id == "signify.hue.bridge"@
                &&& json::lookup(devices[0].properties, "Bridge address"@) == Some(
                    JView::Str(setup::known_address(values, input)),
                )
                &&& devices.skip(1) == behind
            }
        },
{
    broadcast use json::lookup_put;

    reveal_strlit("Bridge address");
    reveal_strlit("Application key");
    assert("Bridge address"@[0] == 'B' && "Application key"@[0] == 'A');
    let behind = chosen.map_values(|c: CandidateView| steps::bare(c));
    let bridge = steps::bridge_of(
        json::str_or(json::as_str(values.get("name"@)), "Hue Bridge"@),
        setup::known_address(values, input),
        setup::text_or_empty(values, "key"@),
        chosen.len(),
    );
    assert((seq![bridge] + behind).skip(1) =~= behind);
}

/// Every rule that comes with what is chosen points at one of the devices that are taken.
pub proof fn rules_point_at_what_is_taken(
    values: JView,
    input: Members,
    chosen: Seq<CandidateView>,
    k: int,
)
    requires
        chosen.len() < usize::MAX,
        taken(steps::choice_made(values, input, chosen)) matches Some((_, rules, _)) && 0 <= k
            < rules.len(),
    ensures
        taken(steps::choice_made(values, input, chosen)) matches Some((devices, rules, _))
            && rules[k].when_device < devices.len() && rules[k].when_proxy == 1,
{
    let found = setup::gathered(values);
    what_is_chosen_is_taken(values, input, chosen);
    let (devices, rules, _) = taken(steps::choice_made(values, input, chosen))->0;
    if setup::is_browsing(values) {
        crate::laws::offer::rules_are_sound(found, found.len(), chosen, k);
    } else {
        crate::laws::offer::rules_are_sound(found, found.len(), devices, k);
    }
}

/// The answer to the question about the scenes decides over the scenes alone: the devices and the
/// rules are taken either way.
pub proof fn scenes_are_a_choice_of_their_own(
    devices: Seq<CandidateView>,
    rules: Seq<ImportedRuleView>,
    scenes: Seq<ImportedSceneView>,
    input: Members,
    chosen: Seq<CandidateView>,
    answer: Seq<char>,
)
    requires
        scenes.len() > 0,
        json::lookup(input, "scenes"@) == Some(JView::Str(answer)),
    ensures
        ({
            let asked = steps::scenes_asked(devices, rules, scenes);
            let (step, _) = steps::stepped(asked.1, input, chosen);
            &&& asked.0 is Form
            &&& step == (SetupStepView::Done {
                devices,
                rules,
                scenes: if text::begins(answer, "Bring"@) {
                    scenes
                } else {
                    seq![]
                },
            })
        }),
{
}

/// Where the bridge has no scene that would work, nothing is asked.
pub proof fn no_scenes_no_question(
    devices: Seq<CandidateView>,
    rules: Seq<ImportedRuleView>,
    scenes: Seq<ImportedSceneView>,
)
    requires
        scenes.len() == 0,
    ensures
        steps::scenes_asked(devices, rules, scenes) == (
            SetupStepView::Done { devices, rules, scenes },
            setup::over(),
        ),
{
}

/// Whether everything gathered so far is an object.
pub open spec fn holds_objects(state: SetupStateView) -> bool {
    state matches SetupStateView::Values(values) && forall|i: int|
        0 <= i < setup::gathered(values).len() ==> #[trigger] setup::gathered(values)[i] is Obj
}

proof fn compacted_objects(data: Seq<JView>, n: nat)
    requires
        n <= data.len(),
    ensures
        forall|i: int|
            0 <= i < catalog::compacted(data, n).len() ==> #[trigger] catalog::compacted(
                data,
                n,
            )[i] is Obj,
    decreases n,
{
    if n > 0 {
        compacted_objects(data, (n - 1) as nat);
    }
}

proof fn wired_object(device: JView, data: Seq<JView>, n: nat, names: JView)
    requires
        device is Obj,
    ensures
        behaviour::wired_upto(device, data, n, names) is Obj,
    decreases n,
{
    if n > 0 {
        wired_object(device, data, (n - 1) as nat, names);
    }
}

/// The list that the first phases of a listing leave behind.
spec fn list_left(values: JView, input: Members) -> Seq<JView> {
    let at = setup::phase_of(values);
    let response = json::lookup(input, "response"@);
    let data = catalog::data_or_none(response);
    let found = setup::gathered(values);
    let names = json::or_null(values.get("rooms"@));
    if at == "devices"@ {
        catalog::compacted(data, data.len())
    } else if at == "buttons"@ {
        found.map_values(|d: JView| catalog::ordered(d, data))
    } else if at == "rooms"@ {
        found.map_values(|d: JView| catalog::placed(d, catalog::groups(response)))
    } else {
        found.map_values(|d: JView| behaviour::wired_upto(d, data, data.len(), names))
    }
}

proof fn left_behind(values: JView, input: Members, chosen: Seq<CandidateView>)
    requires
        setup::phase_of(values) == "devices"@ || setup::phase_of(values) == "buttons"@
            || setup::phase_of(values) == "rooms"@ || setup::phase_of(values) == "behaviours"@,
    ensures
        steps::stepped(SetupStateView::Values(values), input, chosen).1 matches SetupStateView::Values(
            v,
        ) && setup::gathered(v) == list_left(values, input),
{
    broadcast use json::lookup_put;

    phases();
    state_keys();
}

/// A listing that was begun can always be continued: what it gathers is objects from the start, and
/// stays so, and into an object what the automations say can be written, whatever they say.
pub proof fn a_listing_can_be_continued(
    values: JView,
    input: Members,
    chosen: Seq<CandidateView>,
    next: Members,
)
    requires
        setup::phase_of(values) == "devices"@ || (holds_objects(SetupStateView::Values(values)) && (
        setup::phase_of(values) == "buttons"@ || setup::phase_of(values) == "rooms"@
            || setup::phase_of(values) == "behaviours"@)),
    ensures
        ({
            let state = steps::stepped(SetupStateView::Values(values), input, chosen).1;
            holds_objects(state) && steps::can_step(state, next)
        }),
{
    phases();
    left_behind(values, input, chosen);
    listing_goes_in_turn(
        values,
        input,
        chosen,
        listing_after(setup::phase_of(values))->0,
    );
    let response = json::lookup(input, "response"@);
    let data = catalog::data_or_none(response);
    let found = setup::gathered(values);
    let names = json::or_null(values.get("rooms"@));
    let list = list_left(values, input);
    compacted_objects(data, data.len());
    assert forall|i: int| 0 <= i < list.len() implies #[trigger] list[i] is Obj by {
        if setup::phase_of(values) != "devices"@ {
            assert(found[i] is Obj);
            wired_object(found[i], data, data.len(), names);
        }
    }
}

} // verus!
