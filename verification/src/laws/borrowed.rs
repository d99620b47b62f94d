//! Laws of the scenes that are found on the bridge: what is offered of each, action by action.

use vstd::prelude::*;
use crate::borrowed;
use crate::host::BorrowedSceneStepView;
use crate::json::{JView, NumberView};
use crate::number;
use crate::text;

verus! {

/// Whether an action of a scene names a light and gives it a state.
pub open spec fn is_readable(action: JView) -> bool {
    (action.get2("target"@, "rid"@) matches Some(JView::Str(_))) && action.get("action"@) is Some
}

/// Whether a state has its light off.
pub open spec fn is_off(state: JView) -> bool {
    state.get2("on"@, "on"@) == Some(JView::Bool(false))
}

/// The mireds of a state that has its light on.
pub open spec fn mireds(state: JView) -> Option<u64> {
    match state.get2("color_temperature"@, "mirek"@) {
        Some(JView::Num(NumberView::PosInt(n))) => if n > 0 && !is_off(state) {
            Some(n)
        } else {
            None
        },
        _ => None,
    }
}

/// How many steps come before those of the action at `k`: one for each action, and one more for
/// each that is on with a colour temperature.
pub open spec fn steps_before(actions: Seq<JView>, k: nat) -> nat
    decreases k,
{
    if k == 0 {
        0
    } else {
        let state = actions[k - 1].get("action"@)->0;
        steps_before(actions, (k - 1) as nat) + if mireds(state) is Some {
            2nat
        } else {
            1nat
        }
    }
}

/// Whether a step is a command to a light with one whole number.
pub open spec fn is_step(
    step: BorrowedSceneStepView,
    light: JView,
    command: Seq<char>,
    key: Seq<char>,
    value: u64,
) -> bool {
    &&& step.properties == seq![("Light id"@, light)]
    &&& step.proxy == 1
    &&& step.command == command
    &&& step.args == seq![(key, JView::Num(NumberView::PosInt(value)))]
}

/// The level that a state gives its light: nothing where it is off, its brightness where it says
/// one, and full otherwise.
pub open spec fn level_given(state: JView, level: u64) -> bool {
    if is_off(state) {
        level == 0
    } else {
        match number::brightness(state.get2("dimming"@, "brightness"@)) {
            Some(n) => level == n,
            None => level == 100,
        }
    }
}

/// Whether the steps from `at` on are those of an action: its level to its light, and then its
/// colour temperature in kelvin where it is on with one.
pub open spec fn carried_out(action: JView, steps: Seq<BorrowedSceneStepView>, at: int) -> bool {
    let light = action.get2("target"@, "rid"@)->0;
    let state = action.get("action"@)->0;
    &&& exists|level: u64|
        #[trigger] level_given(state, level) && is_step(
            steps[at],
            light,
            "set_level"@,
            "level"@,
            level,
        )
    &&& match mireds(state) {
        Some(mirek) => exists|kelvin: u64|
            #[trigger] is_step(steps[at + 1], light, "set_cct"@, "kelvin"@, kelvin) && kelvin
                * mirek <= 1_000_000 < (kelvin + 1) * mirek,
        None => true,
    }
}

proof fn action_is_carried_out(action: JView, before: Seq<BorrowedSceneStepView>)
    requires
        is_readable(action),
    ensures
        borrowed::action_steps(action) is Some,
        ({
            let steps = before + borrowed::action_steps(action)->0;
            &&& carried_out(action, steps, before.len() as int)
            &&& steps.len() == before.len() + if mireds(action.get("action"@)->0) is Some {
                2int
            } else {
                1int
            }
        }),
{
    broadcast use crate::json::one_is_one;

    let state = action.get("action"@)->0;
    let light = action.get2("target"@, "rid"@)->0;
    let steps = before + borrowed::action_steps(action)->0;
    let at = before.len() as int;
    let level = borrowed::state_level(state);
    assert(level_given(state, level));
    assert(is_step(steps[at], light, "set_level"@, "level"@, level));
    match mireds(state) {
        Some(mirek) => {
            let m = mirek as int;
            let kelvin = 1_000_000int / m;
            assert(kelvin * m <= 1_000_000 < (kelvin + 1) * m) by (nonlinear_arith)
                requires
                    m > 0,
                    kelvin == 1_000_000int / m,
            ;
            assert(is_step(steps[at + 1], light, "set_cct"@, "kelvin"@, kelvin as u64));
        },
        None => {},
    }
}

proof fn actions_are_carried_out(actions: Seq<JView>, n: nat)
    requires
        n <= actions.len(),
        forall|k: int| 0 <= k < n ==> is_readable(#[trigger] actions[k]),
    ensures
        borrowed::actions_steps(actions, n) is Some,
        ({
            let steps = borrowed::actions_steps(actions, n)->0;
            &&& steps.len() == steps_before(actions, n)
            &&& forall|k: int|
                0 <= k < n ==> #[trigger] carried_out(
                    actions[k],
                    steps,
                    steps_before(actions, k as nat) as int,
                )
        }),
    decreases n,
{
    if n > 0 {
        let m = (n - 1) as nat;
        actions_are_carried_out(actions, m);
        let before = borrowed::actions_steps(actions, m)->0;
        assert(is_readable(actions[n - 1]));
        action_is_carried_out(actions[n - 1], before);
        let steps = borrowed::actions_steps(actions, n)->0;
        assert forall|k: int| 0 <= k < n implies #[trigger] carried_out(
            actions[k],
            steps,
            steps_before(actions, k as nat) as int,
        ) by {
            if k < m {
                let at = steps_before(actions, k as nat) as int;
                assert(carried_out(actions[k], before, at));
                steps_come_in_order(actions, (k + 1) as nat, m);
                assert(steps_before(actions, (k + 1) as nat) > at);
                assert(steps[at] == before[at]);
                let state = actions[k].get("action"@)->0;
                let light = actions[k].get2("target"@, "rid"@)->0;
                if mireds(state) is Some {
                    assert(steps[at + 1] == before[at + 1]);
                }
            }
        }
    }
}

proof fn steps_come_in_order(actions: Seq<JView>, k: nat, n: nat)
    requires
        k <= n,
    ensures
        steps_before(actions, k) <= steps_before(actions, n),
    decreases n,
{
    if k < n {
        steps_come_in_order(actions, k, (n - 1) as nat);
    }
}

proof fn unreadable_is_nothing(actions: Seq<JView>, k: int, n: nat)
    requires
        0 <= k < n <= actions.len(),
        !is_readable(actions[k]),
    ensures
        borrowed::actions_steps(actions, n) is None,
    decreases n,
{
    if k < n - 1 {
        unreadable_is_nothing(actions, k, (n - 1) as nat);
    }
}

/// Whether a scene on the bridge is one that can be offered: it was not published from here, has
/// an id, and has actions, each of which can be read.
pub open spec fn can_be_offered(scene: JView) -> bool {
    &&& !(scene.get2("metadata"@, "appdata"@) matches Some(JView::Str(mark)) && mark.len() >= 5
        && mark.subrange(0, 5) == "juno:"@)
    &&& scene.get("id"@) matches Some(JView::Str(_))
    &&& scene.get("actions"@) matches Some(JView::Arr(actions)) && actions.len() > 0 && (forall|
        k: int,
    |
        0 <= k < actions.len() ==> is_readable(#[trigger] actions[k]))
}

/// Whether a palette of a scene has anything of a kind.
pub open spec fn palette_holds(scene: JView, kind: Seq<char>) -> bool {
    scene.get2("palette"@, kind) matches Some(JView::Arr(items)) && items.len() > 0
}

/// A scene is offered exactly where it can be: under its own name and id, as one that moves exactly
/// where it has colours or effects in its palette, and with a level for the light of each of its
/// actions, and a colour temperature where the action has one, in the order of the actions, and
/// with no other steps.
pub proof fn a_scene_is_offered_action_by_action(scene: JView)
    ensures
        borrowed::snapshot(scene) is Some <==> can_be_offered(scene),
        borrowed::snapshot(scene) matches Some(s) ==> {
            let actions = scene.get("actions"@)->0->Arr_0;
            &&& Some(JView::Str(s.resource)) == scene.get("id"@)
            &&& s.title == match scene.get2("metadata"@, "name"@) {
                Some(JView::Str(name)) => name,
                _ => "Unnamed Hue scene"@,
            }
            &&& s.dynamic_palette <==> palette_holds(scene, "color"@) || palette_holds(
                scene,
                "effects"@,
            )
            &&& s.steps.len() == steps_before(actions, actions.len())
            &&& forall|k: int|
                0 <= k < actions.len() ==> #[trigger] carried_out(
                    actions[k],
                    s.steps,
                    steps_before(actions, k as nat) as int,
                )
        },
{
    reveal_strlit("juno:");
    assert("juno:"@.len() == 5);
    match scene.get2("metadata"@, "appdata"@) {
        Some(JView::Str(mark)) => {
            if mark.len() >= 5 && mark.subrange(0, 5) == "juno:"@ {
                assert forall|i: int| 0 <= i < 5 implies mark[i] == "juno:"@[i] by {
                    assert(mark.subrange(0, 5)[i] == "juno:"@[i]);
                }
                assert(text::begins(mark, "juno:"@));
            }
            if text::begins(mark, "juno:"@) {
                assert(mark.subrange(0, 5) =~= "juno:"@);
            }
        },
        _ => {},
    }
    match scene.get("actions"@) {
        Some(JView::Arr(actions)) => {
            let n = actions.len();
            if forall|k: int| 0 <= k < n ==> is_readable(#[trigger] actions[k]) {
                actions_are_carried_out(actions, n);
                steps_come_in_order(actions, 0, n);
                if n > 0 {
                    steps_come_in_order(actions, 1, n);
                    assert(steps_before(actions, 1) > 0) by {
                        reveal_with_fuel(steps_before, 2);
                    }
                }
            } else {
                let k = choose|k: int| 0 <= k < n && !is_readable(#[trigger] actions[k]);
                unreadable_is_nothing(actions, k, n);
            }
        },
        _ => {},
    }
}

/// Every scene on the bridge that can be offered is, in the order the bridge lists them, and no
/// other: what is offered is what the scenes of that kind come to, one by one.
pub proof fn every_scene_that_can_be_is_offered(scenes: Seq<JView>, n: nat)
    requires
        n <= scenes.len(),
    ensures
        borrowed::snapshots(scenes, n) == scenes.take(n as int).filter(
            |s: JView| can_be_offered(s),
        ).map_values(|s: JView| borrowed::snapshot(s)->0),
    decreases n,
{
    let can = |s: JView| can_be_offered(s);
    let offered = |s: JView| borrowed::snapshot(s)->0;
    reveal(Seq::filter);
    if n == 0 {
        assert(scenes.take(0).filter(can).map_values(offered) =~= seq![]);
    } else {
        let m = (n - 1) as nat;
        every_scene_that_can_be_is_offered(scenes, m);
        a_scene_is_offered_action_by_action(scenes[n - 1]);
        assert(scenes.take(n as int).drop_last() =~= scenes.take(m as int));
        assert(scenes.take(n as int).last() == scenes[n - 1]);
        let before = scenes.take(m as int).filter(can);
        assert(before.push(scenes[n - 1]).map_values(offered) =~= before.map_values(offered).push(
            borrowed::snapshot(scenes[n - 1])->0,
        ));
    }
}

} // verus!
