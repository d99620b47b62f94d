//! Laws of the steps of setting a bridge up: what each asks, and what it leaves for the next.

use vstd::prelude::*;
use crate::behaviour;
use crate::catalog;
use crate::host::{
    CandidateView, FieldView, HttpRequestView, ImportedRuleView, ImportedSceneView, PickRowView,
    SetupStepView,
};
use crate::imports;
use crate::json;
use crate::json::{JView, Members, NumberView};
use crate::laws::setup as phases;
use crate::offer;
use crate::setup;
use crate::setup::{Outcome, SetupStateView};
use crate::steps;
use crate::text;
use crate::wire;

verus! {

/// The state that setting up is in, by what it holds.
pub open spec fn at(values: JView) -> SetupStateView {
    SetupStateView::Values(values)
}

/// Whether what is held is in a phase.
pub open spec fn is_in(values: JView, phase: Seq<char>) -> bool {
    values.get("phase"@) == Some(JView::Str(phase))
}

/// The text under a key, if it is one.
pub open spec fn text_at(value: Option<JView>) -> Option<Seq<char>> {
    match value {
        Some(JView::Str(s)) => Some(s),
        _ => None,
    }
}

/// The text under a key, or another where there is none.
pub open spec fn text_or(value: Option<JView>, other: Seq<char>) -> Seq<char> {
    match value {
        Some(JView::Str(s)) => s,
        _ => other,
    }
}

/// The address of the bridge: the one held, or else the one just typed, without the space round it.
pub open spec fn address(values: JView, input: Members) -> Option<Seq<char>> {
    match (values.get("address"@), json::lookup(input, "address"@)) {
        (Some(JView::Str(a)), _) => Some(a),
        (_, Some(JView::Str(typed))) => Some(text::trimmed(typed)),
        _ => None,
    }
}

/// The address of the bridge, or nothing where it is not known.
pub open spec fn address_or(values: JView, input: Members) -> Seq<char> {
    match address(values, input) {
        Some(a) => a,
        None => ""@,
    }
}

/// Whether a bridge that is there already is browsed.
pub open spec fn browses(values: JView) -> bool {
    values.get("browse"@) == Some(JView::Bool(true))
}

/// Whether a step reads a path of a bridge with a key.
pub open spec fn reads(
    step: SetupStepView,
    address: Seq<char>,
    path: Seq<char>,
    key: Seq<char>,
) -> bool {
    step matches SetupStepView::Fetch { request, .. } && request == (HttpRequestView {
        method: "GET"@,
        url: "https://"@ + address + path,
        headers: seq![("hue-application-key"@, key)],
        body: None,
    })
}

/// Whether a step says what it is reading.
pub open spec fn says(step: SetupStepView, note: Seq<char>) -> bool {
    step matches SetupStepView::Fetch { note: said, .. } && said == note
}

/// Whether setting up ends here, without anything, for a reason.
pub open spec fn gives_up(outcome: Outcome, reason: Seq<char>) -> bool {
    outcome == (SetupStepView::Failed { reason }, SetupStateView::Values(JView::Null))
}

/// Whether what is left is in a phase, with a connection, and with what is being browsed.
pub open spec fn leaves(
    outcome: Outcome,
    values: JView,
    phase: Seq<char>,
    address: Seq<char>,
    key: Seq<char>,
) -> bool {
    outcome.1 matches SetupStateView::Values(next) && {
        &&& next.get("phase"@) == Some(JView::Str(phase))
        &&& next.get("address"@) == Some(JView::Str(address))
        &&& next.get("key"@) == Some(JView::Str(key))
        &&& next.get("browse"@) == Some(JView::Bool(browses(values)))
        &&& next.get("parent"@) == Some(or_nothing(values.get("parent"@)))
    }
}

/// A value, or null where there is none.
pub open spec fn or_nothing(value: Option<JView>) -> JView {
    match value {
        Some(v) => v,
        None => JView::Null,
    }
}

/// What is left under a key.
pub open spec fn left(outcome: Outcome, key: Seq<char>) -> Option<JView> {
    match outcome.1 {
        SetupStateView::Values(next) => next.get(key),
        _ => None,
    }
}

proof fn fetch_reads(address: Seq<char>, path: Seq<char>, key: Seq<char>, note: Seq<char>)
    ensures
        reads(setup::fetched(address, path, key, note), address, path, key),
{
    assert(seq![("hue-application-key"@, key)] =~= Seq::<(Seq<char>, Seq<char>)>::empty().push(
        ("hue-application-key"@, key),
    ));
}

proof fn collection_reads(
    values: JView,
    input: Members,
    collection: Seq<char>,
    path: Seq<char>,
    note: Seq<char>,
)
    requires
        "/clip/v2/resource/"@ + collection == path,
    ensures
        reads(
            steps::next_read(values, input, collection, note),
            address_or(values, input),
            path,
            text_or(values.get("key"@), ""@),
        ),
{
    fetch_reads(address_or(values, input), path, text_or(values.get("key"@), ""@), note);
}

proof fn carried_leaves(values: JView, phase: Seq<char>, address: Seq<char>, key: Seq<char>)
    ensures
        ({
            let m = setup::carried(values, phase, address, key);
            &&& json::lookup(m, "phase"@) == Some(JView::Str(phase))
            &&& json::lookup(m, "address"@) == Some(JView::Str(address))
            &&& json::lookup(m, "key"@) == Some(JView::Str(key))
            &&& json::lookup(m, "browse"@) == Some(JView::Bool(browses(values)))
            &&& json::lookup(m, "parent"@) == Some(or_nothing(values.get("parent"@)))
        }),
{
    broadcast use json::lookup_put;

    phases::state_keys();
}

/// A bridge that is there already is read at its own address with its own key, from the start; one
/// that lacks either cannot be.
pub proof fn browsing_reads_the_devices(
    values: JView,
    input: Members,
    chosen: Seq<CandidateView>,
)
    requires
        is_in(values, "start"@) || !(values.get("phase"@) matches Some(JView::Str(_))),
        browses(values),
    ensures
        ({
            let outcome = steps::stepped(at(values), input, chosen);
            let place = text_or(values.get("Bridge address"@), ""@);
            let key = text_or(values.get("Application key"@), ""@);
            if place.len() == 0 || key.len() == 0 {
                gives_up(outcome, "this bridge has no address or key set — pair it first"@)
            } else {
                &&& reads(outcome.0, place, "/clip/v2/resource/device"@, key)
                &&& says(outcome.0, "reading what is paired to the bridge"@)
                &&& leaves(outcome, values, "devices"@, place, key)
            }
        }),
{
    phases::phases();
    let place = text_or(values.get("Bridge address"@), ""@);
    let key = text_or(values.get("Application key"@), ""@);
    fetch_reads(
        place,
        "/clip/v2/resource/device"@,
        key,
        "reading what is paired to the bridge"@,
    );
    carried_leaves(values, "devices"@, place, key);
}

/// The field that asks for an address.
pub open spec fn asks_address(field: FieldView) -> bool {
    &&& field.name == "address"@
    &&& field.label == "Bridge address"@
    &&& field.kind == "string"@
    &&& field.help == "for example 192.168.1.42"@
    &&& field.required
    &&& field.default is None
    &&& field.options.len() == 0
}

/// Whether something announced itself with an address.
pub open spec fn is_reachable(found: JView) -> bool {
    found.get("address"@) matches Some(JView::Str(_))
}

/// Whether a row shows what announced itself: its name up to the first point, its address and its
/// model, and a note of its id, or that it is on this machine. Picking it gives its address.
pub open spec fn shows(row: PickRowView, found: JView) -> bool {
    let place = text_or(found.get("address"@), ""@);
    let id = text_or(found.get2("txt"@, "bridgeid"@), ""@);
    &&& row.value == place
    &&& row.cells.len() == 3
    &&& row.cells[0] == text::first_label(text_or(found.get("name"@), "Hue bridge"@))
    &&& row.cells[1] == place
    &&& row.cells[2] == text_or(found.get2("txt"@, "modelid"@), "—"@)
    &&& row.note == if place.len() >= 4 && place.take(4) == "127."@ {
        "on this machine only"@
    } else if id.len() == 0 {
        ""@
    } else {
        "id "@ + id
    }
}

proof fn rows_show(found: Seq<JView>, n: nat)
    requires
        n <= found.len(),
    ensures
        ({
            let reachable = found.take(n as int).filter(|f: JView| is_reachable(f));
            let rows = setup::rows_upto(found, n);
            &&& rows.len() == reachable.len()
            &&& forall|k: int| 0 <= k < rows.len() ==> shows(#[trigger] rows[k], reachable[k])
        }),
    decreases n,
{
    reveal(Seq::filter);
    reveal_strlit("127.");
    assert("127."@.len() == 4);
    if n > 0 {
        rows_show(found, (n - 1) as nat);
        assert(found.take(n as int).drop_last() =~= found.take(n - 1));
        assert(found.take(n as int).last() == found[n - 1]);
    }
}

/// A bridge is found by what announced itself on the network, one row for each with an address, in
/// their order; and its address is asked for where nothing did. An address can be typed either way.
pub proof fn a_bridge_is_found_or_asked_for(
    values: JView,
    input: Members,
    chosen: Seq<CandidateView>,
)
    requires
        is_in(values, "start"@) || !(values.get("phase"@) matches Some(JView::Str(_))),
        !browses(values),
    ensures
        ({
            let outcome = steps::stepped(at(values), input, chosen);
            let found = match values.get("mdns_candidates"@) {
                Some(JView::Arr(found)) => found,
                _ => seq![],
            };
            let reachable = found.filter(|f: JView| is_reachable(f));
            &&& outcome.1 == SetupStateView::Values(
                JView::Obj(seq![("phase"@, JView::Str("probe"@))]),
            )
            &&& found.len() == 0 ==> (outcome.0 matches SetupStepView::Form { title, body, fields }
                && title == "Find your Hue bridge"@ && body == setup::WHERE_ADDRESS@
                && fields.len() == 1 && asks_address(fields[0]))
            &&& found.len() > 0 ==> (outcome.0 matches SetupStepView::Pick {
                rows,
                field,
                manual,
                ..
            } && field == "address"@ && manual is Some && asks_address(manual->0) && rows.len()
                == reachable.len() && (forall|k: int|
                0 <= k < rows.len() ==> shows(#[trigger] rows[k], reachable[k])))
            &&& found.len() > 0 ==> (outcome.0 matches SetupStepView::Pick {
                title,
                body,
                columns,
                ..
            } && body == "Pick the one to set up."@ && columns == seq!["Bridge"@, "Address"@, "Model"@] && title == "Found "@
                + text::decimal(reachable.len()) + " Hue bridge"@ + if reachable.len() == 1 {
                ""@
            } else {
                "s"@
            })
        }),
{
    broadcast use json::one_is_one;

    phases::phases();
    let found = match values.get("mdns_candidates"@) {
        Some(JView::Arr(found)) => found,
        _ => seq![],
    };
    rows_show(found, found.len());
    assert(found.take(found.len() as int) =~= found);
}

/// A bridge whose address is known is asked, without a key, what it is; one whose address is not
/// known is asked for again.
pub proof fn a_bridge_is_probed(values: JView, input: Members, chosen: Seq<CandidateView>)
    requires
        is_in(values, "probe"@),
    ensures
        ({
            let outcome = steps::stepped(at(values), input, chosen);
            match address(values, input) {
                Some(place) => {
                    &&& outcome.0 matches SetupStepView::Fetch { request, .. } && request == (
                    HttpRequestView {
                        method: "GET"@,
                        url: "https://"@ + place + "/api/config"@,
                        headers: seq![],
                        body: None,
                    })
                    &&& says(outcome.0, "checking the bridge"@)
                    &&& left(outcome, "phase"@) == Some(JView::Str("probed"@))
                    &&& left(outcome, "address"@) == Some(JView::Str(place))
                },
                None => left(outcome, "phase"@) == Some(JView::Str("probe"@)) && (outcome.0 is Form
                    || outcome.0 is Pick),
            }
        }),
{
    broadcast use json::lookup_put;

    phases::phases();
    phases::state_keys();
}

/// What answered as a bridge is one whose model says so: then its link button is to be pressed, and
/// its address and name are kept. Anything else is no bridge.
pub proof fn a_bridge_is_told_by_its_model(
    values: JView,
    input: Members,
    chosen: Seq<CandidateView>,
)
    requires
        is_in(values, "probed"@),
    ensures
        ({
            let outcome = steps::stepped(at(values), input, chosen);
            let response = or_nothing(json::lookup(input, "response"@));
            let model = text_or(response.get("modelid"@), ""@);
            let name = text_or(response.get("name"@), "Hue Bridge"@);
            if model.len() >= 3 && model.take(3) == "BSB"@ {
                &&& outcome.0 matches SetupStepView::Instruct { title, body, continue_label }
                    && title == "Press the link button on "@ + name && body == setup::LINK_BUTTON@
                    && continue_label == "I pressed it"@
                &&& left(outcome, "phase"@) == Some(JView::Str("pair"@))
                &&& left(outcome, "address"@) == Some(JView::Str(address_or(values, input)))
                &&& left(outcome, "name"@) == Some(JView::Str(name))
            } else {
                gives_up(outcome, address_or(values, input) + setup::NO_BRIDGE@)
            }
        }),
{
    broadcast use json::lookup_put;

    phases::phases();
    phases::state_keys();
    reveal_strlit("BSB");
    assert("BSB"@.len() == 3);
}

/// Pairing asks the bridge for a key, for this application, and counts the attempt.
pub proof fn pairing_asks_for_a_key(values: JView, input: Members, chosen: Seq<CandidateView>)
    requires
        is_in(values, "pair"@),
        steps::can_step(at(values), input),
    ensures
        ({
            let outcome = steps::stepped(at(values), input, chosen);
            let before: u64 = match values.get("attempt"@) {
                Some(JView::Num(NumberView::PosInt(n))) => n,
                _ => 0,
            };
            &&& exists|body: JView|
                body.get("devicetype"@) == Some(JView::Str("juno#controller"@)) && body.get(
                    "generateclientkey"@,
                ) == Some(JView::Bool(true)) && (outcome.0 matches SetupStepView::Fetch {
                    request,
                    ..
                } && request == (HttpRequestView {
                    method: "POST"@,
                    url: "https://"@ + address_or(values, input) + "/api"@,
                    headers: seq![],
                    body: Some(#[trigger] wire::rendered(body)),
                }))
            &&& says(outcome.0, "pairing"@)
            &&& left(outcome, "phase"@) == Some(JView::Str("paired"@))
            &&& left(outcome, "address"@) == Some(JView::Str(address_or(values, input)))
            &&& left(outcome, "attempt"@) matches Some(JView::Num(NumberView::PosInt(now))) && now
                == before + 1
        }),
{
    broadcast use json::lookup_put;

    phases::phases();
    phases::state_keys();
    reveal_strlit("devicetype");
    reveal_strlit("generateclientkey");
    assert("devicetype"@.len() != "generateclientkey"@.len());
    let body = steps::pairing_body();
    assert(body.get("devicetype"@) == Some(JView::Str("juno#controller"@)));
    let outcome = steps::stepped(at(values), input, chosen);
    assert(outcome.0->Fetch_request.body == Some(wire::rendered(body)));
}

/// The first thing that a bridge answers to pairing.
pub open spec fn first(input: Members) -> JView {
    match json::lookup(input, "response"@) {
        Some(JView::Arr(items)) => if items.len() > 0 {
            items[0]
        } else {
            JView::Null
        },
        _ => JView::Null,
    }
}

/// A key that the bridge gives is used at once to read its devices. Where the bridge waits for its
/// link button, so does pairing, as often as it may, with the attempts it had. Any other answer
/// ends it, in the bridge's own words where it has any.
pub proof fn a_key_is_used_and_a_refusal_is_told(
    values: JView,
    input: Members,
    chosen: Seq<CandidateView>,
)
    requires
        is_in(values, "paired"@),
    ensures
        ({
            let outcome = steps::stepped(at(values), input, chosen);
            let place = address_or(values, input);
            let attempt: u64 = match values.get("attempt"@) {
                Some(JView::Num(NumberView::PosInt(n))) => n,
                _ => 1,
            };
            let why = text_or(
                first(input).get2("error"@, "description"@),
                "the bridge did not answer"@,
            );
            match text_at(first(input).get2("success"@, "username"@)) {
                Some(key) => {
                    &&& reads(outcome.0, place, "/clip/v2/resource/device"@, key)
                    &&& says(outcome.0, "reading what is paired to the bridge"@)
                    &&& left(outcome, "phase"@) == Some(JView::Str("devices"@))
                    &&& left(outcome, "address"@) == Some(JView::Str(place))
                    &&& left(outcome, "key"@) == Some(JView::Str(key))
                },
                None => if !text::holds(why, "link button"@) {
                    gives_up(outcome, why)
                } else if attempt >= 30 {
                    gives_up(
                        outcome,
                        "the link button was not pressed in time — start again"@,
                    )
                } else {
                    &&& outcome.0 matches SetupStepView::Wait { title, body, retry_ms } && title
                        == "Waiting for the link button"@ && body
                        == "Press the round button on top of the bridge."@ && retry_ms == 1000
                    &&& left(outcome, "phase"@) == Some(JView::Str("pair"@))
                    &&& left(outcome, "address"@) == Some(JView::Str(place))
                    &&& left(outcome, "attempt"@) == Some(
                        JView::Num(NumberView::PosInt(attempt)),
                    )
                },
            }
        }),
{
    broadcast use json::lookup_put;

    phases::phases();
    phases::state_keys();
    match text_at(first(input).get2("success"@, "username"@)) {
        Some(key) => {
            fetch_reads(
                address_or(values, input),
                "/clip/v2/resource/device"@,
                key,
                "reading what is paired to the bridge"@,
            );
        },
        None => {},
    }
}

/// The resources that the bridge answered with.
pub open spec fn answered(response: Option<JView>) -> Seq<JView> {
    match response {
        Some(r) => match r.get("data"@) {
            Some(JView::Arr(data)) => data,
            _ => seq![],
        },
        None => seq![],
    }
}

/// The devices that were found so far.
pub open spec fn found(values: JView) -> Seq<JView> {
    match values.get("catalog"@) {
        Some(JView::Arr(found)) => found,
        _ => seq![],
    }
}

proof fn path_of(collection: Seq<char>, path: Seq<char>)
    requires
        collection == "button"@ && path == "/clip/v2/resource/button"@ || collection == "room"@
            && path == "/clip/v2/resource/room"@ || collection == "behavior_instance"@ && path
            == "/clip/v2/resource/behavior_instance"@ || collection == "scene"@ && path
            == "/clip/v2/resource/scene"@ || collection == "light"@ && path
            == "/clip/v2/resource/light"@,
    ensures
        "/clip/v2/resource/"@ + collection == path,
{
    reveal_strlit("/clip/v2/resource/");
    reveal_strlit("button");
    reveal_strlit("room");
    reveal_strlit("behavior_instance");
    reveal_strlit("scene");
    reveal_strlit("light");
    reveal_strlit("/clip/v2/resource/button");
    reveal_strlit("/clip/v2/resource/room");
    reveal_strlit("/clip/v2/resource/behavior_instance");
    reveal_strlit("/clip/v2/resource/scene");
    reveal_strlit("/clip/v2/resource/light");
    assert("/clip/v2/resource/"@ + collection =~= path);
}

proof fn listing_leaves(
    values: JView,
    input: Members,
    phase: Seq<char>,
    list: Seq<JView>,
    rooms: JView,
)
    ensures
        ({
            let m = steps::with_catalog(values, input, phase, list);
            let more = json::put(m, "rooms"@, rooms);
            let place = address_or(values, input);
            let key = text_or(values.get("key"@), ""@);
            &&& leaves(
                (SetupStepView::Failed { reason: ""@ }, setup::state_of(m)),
                values,
                phase,
                place,
                key,
            )
            &&& json::lookup(m, "catalog"@) == Some(JView::Arr(list))
            &&& leaves(
                (SetupStepView::Failed { reason: ""@ }, setup::state_of(more)),
                values,
                phase,
                place,
                key,
            )
            &&& json::lookup(more, "catalog"@) == Some(JView::Arr(list))
            &&& json::lookup(more, "rooms"@) == Some(rooms)
        }),
{
    broadcast use json::lookup_put;

    phases::state_keys();
    let place = address_or(values, input);
    let key = text_or(values.get("key"@), ""@);
    carried_leaves(values, phase, place, key);
}

/// The devices that the bridge lists are kept, and the buttons are read next.
pub proof fn devices_are_kept(values: JView, input: Members, chosen: Seq<CandidateView>)
    requires
        is_in(values, "devices"@),
    ensures
        ({
            let outcome = steps::stepped(at(values), input, chosen);
            let place = address_or(values, input);
            let key = text_or(values.get("key"@), ""@);
            let data = answered(json::lookup(input, "response"@));
            &&& reads(outcome.0, place, "/clip/v2/resource/button"@, key)
            &&& says(outcome.0, "reading the buttons"@)
            &&& leaves(outcome, values, "buttons"@, place, key)
            &&& left(outcome, "catalog"@) == Some(
                JView::Arr(catalog::compacted(data, data.len())),
            )
        }),
{
    phases::phases();
    path_of("button"@, "/clip/v2/resource/button"@);
    collection_reads(
        values,
        input,
        "button"@,
        "/clip/v2/resource/button"@,
        "reading the buttons"@,
    );
    let data = answered(json::lookup(input, "response"@));
    listing_leaves(
        values,
        input,
        "buttons"@,
        catalog::compacted(data, data.len()),
        JView::Null,
    );
}

/// Every device found has its buttons ordered by what the bridge says of them, and the rooms are
/// read next.
pub proof fn buttons_are_put_in_order(values: JView, input: Members, chosen: Seq<CandidateView>)
    requires
        is_in(values, "buttons"@),
    ensures
        ({
            let outcome = steps::stepped(at(values), input, chosen);
            let place = address_or(values, input);
            let key = text_or(values.get("key"@), ""@);
            let data = answered(json::lookup(input, "response"@));
            &&& reads(outcome.0, place, "/clip/v2/resource/room"@, key)
            &&& says(outcome.0, "reading the rooms"@)
            &&& leaves(outcome, values, "rooms"@, place, key)
            &&& left(outcome, "catalog"@) matches Some(JView::Arr(list)) && list.len() == found(
                values,
            ).len() && (forall|k: int|
                0 <= k < list.len() ==> #[trigger] list[k] == catalog::ordered(
                    found(values)[k],
                    data,
                ))
        }),
{
    phases::phases();
    path_of("room"@, "/clip/v2/resource/room"@);
    collection_reads(values, input, "room"@, "/clip/v2/resource/room"@, "reading the rooms"@);
    let data = answered(json::lookup(input, "response"@));
    listing_leaves(
        values,
        input,
        "rooms"@,
        found(values).map_values(|d: JView| catalog::ordered(d, data)),
        JView::Null,
    );
}

/// Every device found is put into its room, the names of the rooms are kept, and the automations
/// are read next.
pub proof fn devices_are_put_into_rooms(
    values: JView,
    input: Members,
    chosen: Seq<CandidateView>,
)
    requires
        is_in(values, "rooms"@),
    ensures
        ({
            let outcome = steps::stepped(at(values), input, chosen);
            let place = address_or(values, input);
            let key = text_or(values.get("key"@), ""@);
            let data = answered(json::lookup(input, "response"@));
            &&& reads(outcome.0, place, "/clip/v2/resource/behavior_instance"@, key)
            &&& says(outcome.0, "reading what the switches already control"@)
            &&& leaves(outcome, values, "behaviours"@, place, key)
            &&& left(outcome, "rooms"@) == Some(JView::Obj(catalog::names_upto(data, data.len())))
            &&& left(outcome, "catalog"@) matches Some(JView::Arr(list)) && list.len() == found(
                values,
            ).len() && (forall|k: int|
                0 <= k < list.len() ==> #[trigger] list[k] == catalog::placed(
                    found(values)[k],
                    catalog::groups_upto(data, data.len()),
                ))
        }),
{
    phases::phases();
    path_of("behavior_instance"@, "/clip/v2/resource/behavior_instance"@);
    collection_reads(
        values,
        input,
        "behavior_instance"@,
        "/clip/v2/resource/behavior_instance"@,
        "reading what the switches already control"@,
    );
    let response = json::lookup(input, "response"@);
    let data = answered(response);
    let list = found(values).map_values(
        |d: JView| catalog::placed(d, catalog::groups(response)),
    );
    listing_leaves(
        values,
        input,
        "behaviours"@,
        list,
        JView::Obj(catalog::names_upto(data, data.len())),
    );
}

/// Every device found is tied to the rooms that the automations tie it to, by the names that were
/// kept, and the scenes are read next.
pub proof fn devices_are_tied_to_rooms(
    values: JView,
    input: Members,
    chosen: Seq<CandidateView>,
)
    requires
        is_in(values, "behaviours"@),
    ensures
        ({
            let outcome = steps::stepped(at(values), input, chosen);
            let place = address_or(values, input);
            let key = text_or(values.get("key"@), ""@);
            let data = answered(json::lookup(input, "response"@));
            let names = or_nothing(values.get("rooms"@));
            &&& reads(outcome.0, place, "/clip/v2/resource/scene"@, key)
            &&& says(outcome.0, "reading the scenes"@)
            &&& leaves(outcome, values, "hue_scenes"@, place, key)
            &&& left(outcome, "rooms"@) == Some(names)
            &&& left(outcome, "catalog"@) matches Some(JView::Arr(list)) && list.len() == found(
                values,
            ).len() && (forall|k: int|
                0 <= k < list.len() ==> #[trigger] list[k] == behaviour::wired_upto(
                    found(values)[k],
                    data,
                    data.len(),
                    names,
                ))
        }),
{
    phases::phases();
    path_of("scene"@, "/clip/v2/resource/scene"@);
    collection_reads(values, input, "scene"@, "/clip/v2/resource/scene"@, "reading the scenes"@);
    let data = answered(json::lookup(input, "response"@));
    let names = or_nothing(values.get("rooms"@));
    let list = found(values).map_values(
        |d: JView| behaviour::wired_upto(d, data, data.len(), names),
    );
    listing_leaves(values, input, "hue_scenes"@, list, names);
}

/// The scenes are kept as the bridge lists them, with everything found, and the lights are read
/// next.
pub proof fn scenes_are_kept(values: JView, input: Members, chosen: Seq<CandidateView>)
    requires
        is_in(values, "hue_scenes"@),
    ensures
        ({
            let outcome = steps::stepped(at(values), input, chosen);
            let place = address_or(values, input);
            let key = text_or(values.get("key"@), ""@);
            &&& reads(outcome.0, place, "/clip/v2/resource/light"@, key)
            &&& says(outcome.0, "reading the light list"@)
            &&& leaves(outcome, values, "lights"@, place, key)
            &&& left(outcome, "catalog"@) == Some(or_nothing(values.get("catalog"@)))
            &&& left(outcome, "rooms"@) == Some(or_nothing(values.get("rooms"@)))
            &&& left(outcome, "hue_scenes"@) == Some(
                or_nothing(json::lookup(input, "response"@)),
            )
        }),
{
    broadcast use json::lookup_put;

    phases::phases();
    phases::state_keys();
    path_of("light"@, "/clip/v2/resource/light"@);
    collection_reads(
        values,
        input,
        "light"@,
        "/clip/v2/resource/light"@,
        "reading the light list"@,
    );
    carried_leaves(
        values,
        "lights"@,
        address_or(values, input),
        text_or(values.get("key"@), ""@),
    );
}

/// What a light is offered as: its own name, what it can do and how it stands, the connection and
/// its id, and its room by what was found.
pub open spec fn is_bulb(
    c: CandidateView,
    light: JView,
    place: Seq<char>,
    key: Seq<char>,
    list: Seq<JView>,
) -> bool {
    let id = text_or(light.get("id"@), ""@);
    &&& c.label == text_or(light.get2("metadata"@, "name"@), "Hue light"@)
    &&& c.kind == "light"@
    &&& c.driver_id == "signify.hue.bulb"@
    &&& json::lookup(c.properties, "Bridge address"@) == Some(JView::Str(place))
    &&& json::lookup(c.properties, "Application key"@) == Some(JView::Str(key))
    &&& json::lookup(c.properties, "Light id"@) == Some(JView::Str(id))
    &&& forall|k: Seq<char>| #[trigger]
        json::lookup(c.properties, k) is Some ==> k == "Bridge address"@ || k
            == "Application key"@ || k == "Light id"@
    &&& c.verified == if light.get("color"@) is Some {
        "colour"@
    } else if light.get("color_temperature"@) is Some {
        "tunable white"@
    } else if light.get("dimming"@) is Some {
        "dimmable"@
    } else {
        "on/off"@
    } + " — "@ + if light.get2("on"@, "on"@) == Some(JView::Bool(true)) {
        "bridge reports it on"@
    } else if light.get2("on"@, "on"@) == Some(JView::Bool(false)) {
        "bridge reports it off"@
    } else {
        "bridge cannot reach it — is it powered?"@
    }
    &&& c.room == match catalog::light_room(list, id, 0) {
        Some(room) => room,
        None => ""@,
    }
}

/// A light with an id is offered as what it is, and one without is not offered.
pub proof fn a_light_is_offered_as_it_is(
    light: JView,
    place: Seq<char>,
    key: Seq<char>,
    list: Seq<JView>,
)
    ensures
        steps::bulb_of(light, place, key, list) is Some <==> text_at(light.get("id"@)) is Some,
        steps::bulb_of(light, place, key, list) matches Some(c) ==> is_bulb(
            c,
            light,
            place,
            key,
            list,
        ),
{
    broadcast use json::lookup_put;

    reveal_strlit("Bridge address");
    reveal_strlit("Application key");
    reveal_strlit("Light id");
    assert("Bridge address"@[0] == 'B' && "Application key"@[0] == 'A' && "Light id"@[0] == 'L');
    match steps::bulb_of(light, place, key, list) {
        Some(c) => {
            assert forall|k: Seq<char>| #[trigger] json::lookup(c.properties, k) is Some implies k
                == "Bridge address"@ || k == "Application key"@ || k == "Light id"@ by {
                json::lookup_put(seq![], "Bridge address"@, JView::Str(place), k);
                assert(json::lookup(Members::empty(), k) is None);
            }
        },
        None => {},
    }
}

/// Every light with an id is offered, once, and no other.
pub proof fn every_light_is_offered(
    data: Seq<JView>,
    n: nat,
    place: Seq<char>,
    key: Seq<char>,
    list: Seq<JView>,
)
    requires
        n <= data.len(),
    ensures
        steps::bulbs_upto(data, n, place, key, list).to_multiset() == data.take(n as int).filter(
            |l: JView| text_at(l.get("id"@)) is Some,
        ).map_values(|l: JView| steps::bulb_of(l, place, key, list)->0).to_multiset(),
        steps::bulbs_upto(data, n, place, key, list).len() == data.take(n as int).filter(
            |l: JView| text_at(l.get("id"@)) is Some,
        ).len(),
    decreases n,
{
    broadcast use {vstd::seq_lib::to_multiset_build, vstd::seq_lib::to_multiset_insert};

    reveal(Seq::filter);
    let is = |l: JView| text_at(l.get("id"@)) is Some;
    let made = |l: JView| steps::bulb_of(l, place, key, list)->0;
    if n == 0 {
        assert(data.take(0).filter(is).map_values(made) =~= seq![]);
    } else {
        every_light_is_offered(data, (n - 1) as nat, place, key, list);
        assert(data.take(n as int).drop_last() =~= data.take(n - 1));
        let before = data.take(n - 1).filter(is);
        assert(before.push(data[n - 1]).map_values(made) =~= before.map_values(made).push(
            made(data[n - 1]),
        ));
        let rest = steps::bulbs_upto(data, (n - 1) as nat, place, key, list);
        match steps::bulb_of(data[n - 1], place, key, list) {
            Some(c) => {
                crate::laws::offer::slot_bounds(rest, c.label, 0);
            },
            None => {},
        }
    }
}

/// A list that the bridge refuses ends setting up in the bridge's own words, and so does a bridge
/// with nothing behind it. Otherwise everything is offered, the lights and then the accessories,
/// with how many of each, and everything found is kept.
pub proof fn everything_is_offered(values: JView, input: Members, chosen: Seq<CandidateView>)
    requires
        is_in(values, "lights"@),
    ensures
        ({
            let outcome = steps::stepped(at(values), input, chosen);
            let place = address_or(values, input);
            let key = text_or(values.get("key"@), ""@);
            let response = json::lookup(input, "response"@);
            let data = answered(response);
            let list = found(values);
            let bulbs = steps::bulbs_upto(data, data.len(), place, key, list);
            let extras = offer::offers(list, list.len(), place, key);
            let errors = match or_nothing(response).get("errors"@) {
                Some(JView::Arr(errors)) => errors,
                _ => seq![],
            };
            if errors.len() > 0 && text_at(errors[0].get("description"@)) is Some {
                gives_up(
                    outcome,
                    "the bridge refused the light list: "@ + text_or(
                        errors[0].get("description"@),
                        ""@,
                    ),
                )
            } else if bulbs.len() == 0 && extras.len() == 0 {
                gives_up(
                    outcome,
                    "the bridge reported nothing paired to it — add your lights and accessories in the Hue app first"@,
                )
            } else {
                &&& outcome.0 matches SetupStepView::Choose { title, body, options, multiple }
                    && options == bulbs + extras && multiple && body == setup::HOW_TO_CHOOSE@
                    && title == if extras.len() == 0 {
                    text::decimal(bulbs.len()) + " light(s)"@ + " on this bridge"@
                } else if bulbs.len() == 0 {
                    text::decimal(extras.len()) + " accessor"@ + (if extras.len() == 1 {
                        "y"@
                    } else {
                        "ies"@
                    }) + " on this bridge"@
                } else {
                    text::decimal(bulbs.len()) + " light(s) and "@ + text::decimal(extras.len())
                        + " accessor"@ + (if extras.len() == 1 {
                        "y"@
                    } else {
                        "ies"@
                    }) + " on this bridge"@
                }
                &&& leaves(outcome, values, "chosen"@, place, key)
                &&& left(outcome, "catalog"@) == Some(or_nothing(values.get("catalog"@)))
                &&& left(outcome, "rooms"@) == Some(or_nothing(values.get("rooms"@)))
                &&& left(outcome, "hue_scenes"@) == Some(or_nothing(values.get("hue_scenes"@)))
            }
        }),
{
    broadcast use json::lookup_put;

    phases::phases();
    phases::state_keys();
    carried_leaves(
        values,
        "chosen"@,
        address_or(values, input),
        text_or(values.get("key"@), ""@),
    );
}

/// Whether a device is one that was chosen, but for the connection, which it leaves to the bridge.
pub open spec fn is_behind(device: CandidateView, chosen: CandidateView) -> bool {
    &&& device.label == chosen.label
    &&& device.kind == chosen.kind
    &&& device.driver_id == chosen.driver_id
    &&& device.verified == chosen.verified
    &&& device.room == chosen.room
    &&& json::lookup(device.properties, "Bridge address"@) is None
    &&& json::lookup(device.properties, "Application key"@) is None
    &&& forall|k: Seq<char>|
        k != "Bridge address"@ && k != "Application key"@ ==> #[trigger] json::lookup(
            device.properties,
            k,
        ) == json::lookup(chosen.properties, k)
}

proof fn bare_is_behind(c: CandidateView)
    ensures
        is_behind(steps::bare(c), c),
{
    broadcast use json::lookup_without;

}

/// Whether a device is a bridge under a name with a connection, and says how many devices there are
/// behind it.
pub open spec fn is_bridge(
    device: CandidateView,
    name: Seq<char>,
    place: Seq<char>,
    key: Seq<char>,
    count: nat,
) -> bool {
    &&& device.label == name
    &&& device.kind == "bridge"@
    &&& device.driver_id == "signify.hue.bridge"@
    &&& device.room == ""@
    &&& device.verified == text::decimal(count) + " device(s) behind it"@
    &&& json::lookup(device.properties, "Bridge address"@) == Some(JView::Str(place))
    &&& json::lookup(device.properties, "Application key"@) == Some(JView::Str(key))
}

proof fn bridge_is_made(name: Seq<char>, place: Seq<char>, key: Seq<char>, count: nat)
    ensures
        is_bridge(steps::bridge_of(name, place, key, count), name, place, key, count),
{
    broadcast use json::lookup_put;

    reveal_strlit("Bridge address");
    reveal_strlit("Application key");
    assert("Bridge address"@[0] == 'B' && "Application key"@[0] == 'A');
}

/// Whether the question about the scenes is asked: how many there are and what the first few are
/// called, with bringing them over as the answer that is taken for granted.
pub open spec fn asks_about(step: SetupStepView, scenes: Seq<ImportedSceneView>) -> bool {
    step matches SetupStepView::Form { title, body, fields } && {
        let n = scenes.len();
        let few = scenes.take(
            if n < 4 {
                n as int
            } else {
                4
            },
        ).map_values(|s: ImportedSceneView| s.title);
        &&& title == "Bring over "@ + text::decimal(n) + " scene"@ + (if n == 1 {
            ""@
        } else {
            "s"@
        }) + "?"@
        &&& body == "The bridge has "@ + text::decimal(n) + " saved — "@ + text::joined(
            few,
            few.len(),
            ", "@,
        ) + (if n > 4 {
            " and others"@
        } else {
            ""@
        }) + setup::ABOUT_SCENES@
        &&& fields.len() == 1
        &&& fields[0].name == "scenes"@
        &&& fields[0].label == "Scenes"@
        &&& fields[0].help == ""@
        &&& fields[0].kind == "choice"@
        &&& fields[0].default == Some(JView::Str("Bring them over"@))
        &&& fields[0].options == seq!["Bring them over"@, "Leave them"@]
        &&& fields[0].required
    }
}

/// Whether choosing ends in devices, rules and scenes: at once where there are no scenes, and with
/// the question about them otherwise.
pub open spec fn ends_in(
    outcome: Outcome,
    devices: Seq<CandidateView>,
    rules: Seq<ImportedRuleView>,
    scenes: Seq<ImportedSceneView>,
) -> bool {
    if scenes.len() == 0 {
        outcome == (
            SetupStepView::Done { devices, rules, scenes },
            SetupStateView::Values(JView::Null),
        )
    } else {
        &&& outcome.1 == (SetupStateView::SceneChoice { devices, rules, scenes })
        &&& asks_about(outcome.0, scenes)
    }
}

proof fn question_is_asked(
    devices: Seq<CandidateView>,
    rules: Seq<ImportedRuleView>,
    scenes: Seq<ImportedSceneView>,
)
    ensures
        ends_in(steps::scenes_asked(devices, rules, scenes), devices, rules, scenes),
{
    let n = scenes.len();
    let shown: nat = if n < 4 {
        n
    } else {
        4
    };
    let few = scenes.take(shown as int).map_values(|s: ImportedSceneView| s.title);
    assert(steps::titles(scenes, shown) =~= few);
}

/// Browsing a bridge takes what is chosen, without the connection, with the rules of the remotes
/// and the scenes of the lights among what is chosen.
pub proof fn browsing_takes_what_is_chosen(
    values: JView,
    input: Members,
    chosen: Seq<CandidateView>,
)
    requires
        is_in(values, "chosen"@),
        browses(values),
    ensures
        ({
            let outcome = steps::stepped(at(values), input, chosen);
            let list = found(values);
            let data = answered(values.get("hue_scenes"@));
            exists|devices: Seq<CandidateView>| #[trigger]
                ends_in(
                    outcome,
                    devices,
                    imports::proposed(list, list.len(), chosen),
                    imports::imported_upto(data, data.len(), chosen),
                ) && devices.len() == chosen.len() && (forall|k: int|
                    0 <= k < chosen.len() ==> is_behind(#[trigger] devices[k], chosen[k]))
        }),
{
    phases::phases();
    let list = found(values);
    let data = answered(values.get("hue_scenes"@));
    let devices = chosen.map_values(|c: CandidateView| steps::bare(c));
    assert forall|k: int| 0 <= k < chosen.len() implies is_behind(
        #[trigger] devices[k],
        chosen[k],
    ) by {
        bare_is_behind(chosen[k]);
    }
    let rules = imports::proposed(list, list.len(), chosen);
    let scenes = imports::imported_upto(data, data.len(), chosen);
    question_is_asked(devices, rules, scenes);
    let outcome = steps::stepped(at(values), input, chosen);
    assert(outcome == steps::scenes_asked(devices, rules, scenes));
    assert(ends_in(outcome, devices, rules, scenes));
}

/// Setting a bridge up takes the bridge, with the connection, and behind it what is chosen, without
/// it, with the rules of the remotes and the scenes of the lights among these.
pub proof fn setting_up_takes_the_bridge(
    values: JView,
    input: Members,
    chosen: Seq<CandidateView>,
)
    requires
        is_in(values, "chosen"@),
        !browses(values),
    ensures
        ({
            let outcome = steps::stepped(at(values), input, chosen);
            let list = found(values);
            let data = answered(values.get("hue_scenes"@));
            exists|devices: Seq<CandidateView>| #[trigger]
                ends_in(
                    outcome,
                    devices,
                    imports::proposed(list, list.len(), devices),
                    imports::imported_upto(data, data.len(), devices),
                ) && devices.len() == chosen.len() + 1 && is_bridge(
                    devices[0],
                    text_or(values.get("name"@), "Hue Bridge"@),
                    address_or(values, input),
                    text_or(values.get("key"@), ""@),
                    chosen.len(),
                ) && (forall|k: int|
                    0 < k < devices.len() ==> is_behind(#[trigger] devices[k], chosen[k - 1]))
        }),
{
    phases::phases();
    let list = found(values);
    let data = answered(values.get("hue_scenes"@));
    let name = text_or(values.get("name"@), "Hue Bridge"@);
    let place = address_or(values, input);
    let key = text_or(values.get("key"@), ""@);
    let bridge = steps::bridge_of(name, place, key, chosen.len());
    bridge_is_made(name, place, key, chosen.len());
    let devices = seq![bridge] + chosen.map_values(|c: CandidateView| steps::bare(c));
    assert forall|k: int| 0 < k < devices.len() implies is_behind(
        #[trigger] devices[k],
        chosen[k - 1],
    ) by {
        bare_is_behind(chosen[k - 1]);
    }
    let rules = imports::proposed(list, list.len(), devices);
    let scenes = imports::imported_upto(data, data.len(), devices);
    question_is_asked(devices, rules, scenes);
    let outcome = steps::stepped(at(values), input, chosen);
    assert(outcome == steps::scenes_asked(devices, rules, scenes));
    assert(ends_in(outcome, devices, rules, scenes));
}

/// The answer about the scenes decides about them alone: they are taken exactly where it begins
/// with bringing them, and the devices and rules are taken either way.
pub proof fn scenes_are_taken_where_wanted(
    devices: Seq<CandidateView>,
    rules: Seq<ImportedRuleView>,
    scenes: Seq<ImportedSceneView>,
    input: Members,
    chosen: Seq<CandidateView>,
)
    ensures
        ({
            let answer = text_or(json::lookup(input, "scenes"@), ""@);
            steps::stepped(SetupStateView::SceneChoice { devices, rules, scenes }, input, chosen)
                == (
                SetupStepView::Done {
                    devices,
                    rules,
                    scenes: if answer.len() >= 5 && answer.take(5) == "Bring"@ {
                        scenes
                    } else {
                        seq![]
                    },
                },
                SetupStateView::Values(JView::Null),
            )
        }),
{
    reveal_strlit("Bring");
    reveal_strlit("");
    assert("Bring"@.len() == 5 && ""@.len() == 0);
}

/// A phase that is not known ends setting up, and is named.
pub proof fn an_unknown_phase_is_told(
    values: JView,
    input: Members,
    chosen: Seq<CandidateView>,
    phase: Seq<char>,
)
    requires
        is_in(values, phase),
        !seq![
            "start"@,
            "probe"@,
            "probed"@,
            "pair"@,
            "paired"@,
            "devices"@,
            "buttons"@,
            "rooms"@,
            "behaviours"@,
            "hue_scenes"@,
            "lights"@,
            "chosen"@,
            "scene_choice"@,
        ].contains(phase),
    ensures
        gives_up(
            steps::stepped(at(values), input, chosen),
            "unknown setup phase `"@ + phase + "`"@,
        ),
{
    let all = seq![
        "start"@,
        "probe"@,
        "probed"@,
        "pair"@,
        "paired"@,
        "devices"@,
        "buttons"@,
        "rooms"@,
        "behaviours"@,
        "hue_scenes"@,
        "lights"@,
        "chosen"@,
        "scene_choice"@,
    ];
    assert(all[0] != phase && all[1] != phase && all[2] != phase && all[3] != phase && all[4]
        != phase && all[5] != phase && all[6] != phase && all[7] != phase && all[8] != phase
        && all[9] != phase && all[10] != phase && all[11] != phase && all[12] != phase);
}

} // verus!
