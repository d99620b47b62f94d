//! The steps of setting a bridge up, one per phase.

use vstd::prelude::*;
use vstd::string::StringExecFns;
use crate::behaviour;
use crate::bulb::HueBulb;
use crate::catalog;
use crate::host;
use crate::host::{
    Candidate, CandidateView, Field, FieldView, HttpRequest, ImportedRule, ImportedRuleView,
    ImportedScene, ImportedSceneView, SetupStep, SetupStepView,
};
use crate::imports;
use crate::json;
use crate::json::{JView, Json, Members, Object};
use crate::offer;
use crate::setup;
use crate::setup::{Outcome, SetupState, SetupStateView};
use crate::text;
use crate::wire;

verus! {

/// A bridge that already exists is browsed: it has an address and a key, so the listing starts at
/// once.
pub open spec fn browse_begun(values: JView) -> Outcome {
    let address = setup::text_or_empty(values, "Bridge address"@);
    let key = setup::text_or_empty(values, "Application key"@);
    if address.len() == 0 || key.len() == 0 {
        setup::given_up(setup::NOT_PAIRED@)
    } else {
        (
            setup::fetched(
                address,
                "/clip/v2/resource/device"@,
                key,
                "reading what is paired to the bridge"@,
            ),
            setup::state_of(setup::carried(values, "devices"@, address, key)),
        )
    }
}

fn begin_browse(values: &Json) -> (r: (SetupStep, SetupState))
    ensures
        (r.0@, r.1@) == browse_begun(values@),
{
    let address = setup::text_of(values, "Bridge address");
    let key = setup::text_of(values, "Application key");
    if text::is_empty(address) || text::is_empty(key) {
        return setup::give_up(setup::NOT_PAIRED.to_string());
    }
    (
        setup::fetch(
            address,
            "/clip/v2/resource/device",
            key,
            "reading what is paired to the bridge",
        ),
        setup::state_with(setup::carry(values, "devices", address, key)),
    )
}

/// Whether an address is a bridge is asked before anyone presses anything.
pub open spec fn probing(values: JView, input: Members) -> Outcome {
    match setup::address_of(values, input) {
        Some(address) => (
            SetupStepView::Fetch {
                request: host::request("GET"@, "https://"@ + address + "/api/config"@),
                note: "checking the bridge"@,
            },
            setup::state_of(
                json::put(
                    json::one("phase"@, JView::Str("probed"@)),
                    "address"@,
                    JView::Str(address),
                ),
            ),
        ),
        None => setup::address_asked(values),
    }
}

fn probe(values: &Json, input: &Object) -> (r: (SetupStep, SetupState))
    ensures
        (r.0@, r.1@) == probing(values@, input@),
{
    match setup::address_in(values, input) {
        Some(address) => {
            let mut url = "https://".to_string();
            url.append(address.as_str());
            url.append("/api/config");
            (
                SetupStep::Fetch {
                    request: HttpRequest::new("GET", url),
                    note: "checking the bridge".to_string(),
                },
                setup::state_with(
                    Object::new().with("phase", Json::text("probed")).with(
                        "address",
                        Json::text(address.as_str()),
                    ),
                ),
            )
        },
        None => HueBulb::ask_for_address(values),
    }
}

/// What the answer to a request has under a key.
pub open spec fn answered(input: Members, key: Seq<char>) -> Option<JView> {
    match json::lookup(input, "response"@) {
        Some(response) => response.get(key),
        None => None,
    }
}

fn answer_at<'a>(input: &'a Object, key: &str) -> (r: Option<&'a Json>)
    ensures
        text::view_of(r) == answered(input@, key@),
{
    match input.get("response") {
        Some(response) => response.get(key),
        None => None,
    }
}

/// What answered is a bridge where it reports a model that bridges have; somebody is then asked to
/// press the link button on it.
pub open spec fn probe_answered(values: JView, input: Members) -> Outcome {
    let address = setup::known_address(values, input);
    let model = json::str_or(json::as_str(answered(input, "modelid"@)), ""@);
    let name = json::str_or(json::as_str(answered(input, "name"@)), "Hue Bridge"@);
    if !text::begins(model, "BSB"@) {
        setup::given_up(address + setup::NO_BRIDGE@)
    } else {
        (
            SetupStepView::Instruct {
                title: "Press the link button on "@ + name,
                body: setup::LINK_BUTTON@,
                continue_label: "I pressed it"@,
            },
            setup::state_of(
                json::put(
                    json::put(
                        json::one("phase"@, JView::Str("pair"@)),
                        "address"@,
                        JView::Str(address),
                    ),
                    "name"@,
                    JView::Str(name),
                ),
            ),
        )
    }
}

fn probed(values: &Json, input: &Object) -> (r: (SetupStep, SetupState))
    ensures
        (r.0@, r.1@) == probe_answered(values@, input@),
{
    let address = setup::address_known(values, input);
    let model = match json::str_of(answer_at(input, "modelid")) {
        Some(s) => s,
        None => "",
    };
    if !text::starts_with(model, "BSB") {
        let mut reason = address;
        reason.append(setup::NO_BRIDGE);
        return setup::give_up(reason);
    }
    let name = match json::str_of(answer_at(input, "name")) {
        Some(s) => s,
        None => "Hue Bridge",
    };
    let mut title = "Press the link button on ".to_string();
    title.append(name);
    (
        SetupStep::Instruct {
            title,
            body: setup::LINK_BUTTON.to_string(),
            continue_label: "I pressed it".to_string(),
        },
        setup::state_with(
            Object::new().with("phase", Json::text("pair")).with(
                "address",
                Json::text(address.as_str()),
            ).with("name", Json::text(name)),
        ),
    )
}

/// How often the bridge has been asked for a key.
pub open spec fn attempts(values: JView, other: u64) -> u64 {
    match json::as_u64(values.get("attempt"@)) {
        Some(n) => n,
        None => other,
    }
}

fn attempts_in(values: &Json, other: u64) -> (r: u64)
    ensures
        r == attempts(values@, other),
{
    match json::u64_of(values.get("attempt")) {
        Some(n) => n,
        None => other,
    }
}

/// What the bridge is told when it is asked for a key.
pub open spec fn pairing_body() -> JView {
    JView::Obj(
        json::put(
            json::one("devicetype"@, JView::Str("juno#controller"@)),
            "generateclientkey"@,
            JView::Bool(true),
        ),
    )
}

/// The state that carries an attempt.
pub open spec fn attempting(phase: Seq<char>, address: Seq<char>, attempt: u64) -> SetupStateView {
    setup::state_of(
        json::put(
            json::put(json::one("phase"@, JView::Str(phase)), "address"@, JView::Str(address)),
            "attempt"@,
            json::int_value(attempt),
        ),
    )
}

fn attempt_state(phase: &str, address: &str, attempt: u64) -> (r: SetupState)
    ensures
        r@ == attempting(phase@, address@, attempt),
{
    setup::state_with(
        Object::new().with("phase", Json::text(phase)).with("address", Json::text(address)).with(
            "attempt",
            Json::integer(attempt),
        ),
    )
}

/// The bridge is asked for a key.
pub open spec fn pairing(values: JView, input: Members) -> Outcome {
    let address = setup::known_address(values, input);
    (
        SetupStepView::Fetch {
            request: host::with_body(
                host::request("POST"@, "https://"@ + address + "/api"@),
                wire::rendered(pairing_body()),
            ),
            note: "pairing"@,
        },
        attempting("paired"@, address, (attempts(values, 0) + 1) as u64),
    )
}

fn pair(values: &Json, input: &Object) -> (r: (SetupStep, SetupState))
    requires
        attempts(values@, 0) < u64::MAX,
    ensures
        (r.0@, r.1@) == pairing(values@, input@),
{
    let address = setup::address_known(values, input);
    let mut url = "https://".to_string();
    url.append(address.as_str());
    url.append("/api");
    let body = Json::object(
        Object::new().with("devicetype", Json::text("juno#controller")).with(
            "generateclientkey",
            Json::Bool(true),
        ),
    );
    (
        SetupStep::Fetch {
            request: HttpRequest::new("POST", url).json(wire::render(&body)),
            note: "pairing".to_string(),
        },
        attempt_state("paired", address.as_str(), attempts_in(values, 0) + 1),
    )
}

/// The first entry of the answer to a request.
pub open spec fn first_answer(input: Members) -> Option<JView> {
    let items = json::list_or_empty(json::as_array(json::lookup(input, "response"@)));
    if items.len() > 0 {
        Some(items[0])
    } else {
        None
    }
}

fn answer_first(input: &Object) -> (r: Option<&Json>)
    ensures
        text::view_of(r) == first_answer(input@),
{
    match json::array_of(input.get("response")) {
        Some(items) => {
            assert(text::views(items@).len() == items@.len());
            if items.len() > 0 {
                Some(&items[0])
            } else {
                None
            }
        },
        None => None,
    }
}

/// What the first entry of an answer has under two keys, where it is text.
pub open spec fn first_text(input: Members, a: Seq<char>, b: Seq<char>) -> Option<Seq<char>> {
    match first_answer(input) {
        Some(first) => json::as_str(first.get2(a, b)),
        None => None,
    }
}

fn text_first<'a>(input: &'a Object, a: &str, b: &str) -> (r: Option<&'a str>)
    ensures
        text::view_of(r) == first_text(input@, a@, b@),
{
    match answer_first(input) {
        Some(first) => json::str_of(first.get2(a, b)),
        None => None,
    }
}

/// With a key the listing starts. Without one, the bridge is asked again while it says that the
/// link button has not been pressed, up to a limit.
pub open spec fn pairing_answered(values: JView, input: Members) -> Outcome {
    let address = setup::known_address(values, input);
    let attempt = attempts(values, 1);
    match first_text(input, "success"@, "username"@) {
        Some(key) => (
            setup::fetched(
                address,
                "/clip/v2/resource/device"@,
                key,
                "reading what is paired to the bridge"@,
            ),
            setup::state_of(
                json::put(
                    json::put(
                        json::one("phase"@, JView::Str("devices"@)),
                        "address"@,
                        JView::Str(address),
                    ),
                    "key"@,
                    JView::Str(key),
                ),
            ),
        ),
        None => {
            let description = json::str_or(
                first_text(input, "error"@, "description"@),
                "the bridge did not answer"@,
            );
            if !text::holds(description, "link button"@) {
                setup::given_up(description)
            } else if attempt < setup::ATTEMPTS {
                (
                    SetupStepView::Wait {
                        title: "Waiting for the link button"@,
                        body: "Press the round button on top of the bridge."@,
                        retry_ms: 1000,
                    },
                    attempting("pair"@, address, attempt),
                )
            } else {
                setup::given_up(setup::NOT_PRESSED@)
            }
        },
    }
}

fn paired(values: &Json, input: &Object) -> (r: (SetupStep, SetupState))
    ensures
        (r.0@, r.1@) == pairing_answered(values@, input@),
{
    let address = setup::address_known(values, input);
    let attempt = attempts_in(values, 1);
    match text_first(input, "success", "username") {
        Some(key) => {
            return (
                setup::fetch(
                    address.as_str(),
                    "/clip/v2/resource/device",
                    key,
                    "reading what is paired to the bridge",
                ),
                setup::state_with(
                    Object::new().with("phase", Json::text("devices")).with(
                        "address",
                        Json::text(address.as_str()),
                    ).with("key", Json::text(key)),
                ),
            );
        },
        None => {},
    }
    let description = match text_first(input, "error", "description") {
        Some(s) => s,
        None => "the bridge did not answer",
    };
    if !text::contains(description, "link button") {
        return setup::give_up(description.to_string());
    }
    // Keep asking for about half a minute: long enough to walk to the bridge.
    if attempt < setup::ATTEMPTS {
        (
            SetupStep::Wait {
                title: "Waiting for the link button".to_string(),
                body: "Press the round button on top of the bridge.".to_string(),
                retry_ms: 1000,
            },
            attempt_state("pair", address.as_str(), attempt),
        )
    } else {
        setup::give_up(setup::NOT_PRESSED.to_string())
    }
}

/// The state with the devices gathered so far.
pub open spec fn with_catalog(
    values: JView,
    input: Members,
    phase: Seq<char>,
    found: Seq<JView>,
) -> Members {
    json::put(
        setup::carried(
            values,
            phase,
            setup::known_address(values, input),
            setup::text_or_empty(values, "key"@),
        ),
        "catalog"@,
        JView::Arr(found),
    )
}

fn state_catalog(values: &Json, address: &str, phase: &str, found: Vec<Json>) -> (r: Object)
    ensures
        r@ == json::put(
            setup::carried(
                values@,
                phase@,
                address@,
                setup::text_or_empty(values@, "key"@),
            ),
            "catalog"@,
            JView::Arr(text::views(found@)),
        ),
{
    setup::carry(values, phase, address, setup::text_of(values, "key")).with(
        "catalog",
        Json::array(found),
    )
}

/// The next read, with the key that pairing gave.
pub open spec fn next_read(
    values: JView,
    input: Members,
    collection: Seq<char>,
    note: Seq<char>,
) -> SetupStepView {
    setup::fetched(
        setup::known_address(values, input),
        "/clip/v2/resource/"@ + collection,
        setup::text_or_empty(values, "key"@),
        note,
    )
}

fn read_next(values: &Json, address: &str, collection: &str, note: &str) -> (r: SetupStep)
    ensures
        r@ == setup::fetched(
            address@,
            "/clip/v2/resource/"@ + collection@,
            setup::text_or_empty(values@, "key"@),
            note@,
        ),
{
    let mut path = "/clip/v2/resource/".to_string();
    path.append(collection);
    setup::fetch(address, path.as_str(), setup::text_of(values, "key"), note)
}

/// Everything paired to the bridge is reduced to what is worth keeping, and the buttons are read.
pub open spec fn devices_answered(values: JView, input: Members) -> Outcome {
    let data = catalog::data_or_none(json::lookup(input, "response"@));
    (
        next_read(values, input, "button"@, "reading the buttons"@),
        setup::state_of(
            with_catalog(values, input, "buttons"@, catalog::compacted(data, data.len())),
        ),
    )
}

fn devices(values: &Json, input: &Object) -> (r: (SetupStep, SetupState))
    ensures
        (r.0@, r.1@) == devices_answered(values@, input@),
{
    let address = setup::address_known(values, input);
    let found = catalog::compact(input.get("response"));
    (
        read_next(values, address.as_str(), "button", "reading the buttons"),
        setup::state_with(state_catalog(values, address.as_str(), "buttons", found)),
    )
}

/// The buttons of each remote are put in their order, and the rooms are read.
pub open spec fn buttons_answered(values: JView, input: Members) -> Outcome {
    let data = catalog::data_or_none(json::lookup(input, "response"@));
    (
        next_read(values, input, "room"@, "reading the rooms"@),
        setup::state_of(
            with_catalog(
                values,
                input,
                "rooms"@,
                setup::gathered(values).map_values(|d: JView| catalog::ordered(d, data)),
            ),
        ),
    )
}

fn buttons(values: &Json, input: &Object) -> (r: (SetupStep, SetupState))
    ensures
        (r.0@, r.1@) == buttons_answered(values@, input@),
{
    let address = setup::address_known(values, input);
    let mut found = setup::gathered_in(values);
    catalog::order_buttons(&mut found, input.get("response"));
    (
        read_next(values, address.as_str(), "room", "reading the rooms"),
        setup::state_with(state_catalog(values, address.as_str(), "rooms", found)),
    )
}

/// Each device is filed under the room holding it, and the automations are read.
pub open spec fn rooms_answered(values: JView, input: Members) -> Outcome {
    let response = json::lookup(input, "response"@);
    let data = catalog::data_or_none(response);
    (
        next_read(
            values,
            input,
            "behavior_instance"@,
            "reading what the switches already control"@,
        ),
        setup::state_of(
            json::put(
                with_catalog(
                    values,
                    input,
                    "behaviours"@,
                    setup::gathered(values).map_values(
                        |d: JView| catalog::placed(d, catalog::groups(response)),
                    ),
                ),
                "rooms"@,
                JView::Obj(catalog::names_upto(data, data.len())),
            ),
        ),
    )
}

fn rooms(values: &Json, input: &Object) -> (r: (SetupStep, SetupState))
    ensures
        (r.0@, r.1@) == rooms_answered(values@, input@),
{
    let address = setup::address_known(values, input);
    let mut found = setup::gathered_in(values);
    catalog::assign_rooms(&mut found, input.get("response"));
    let names = catalog::room_names(input.get("response"));
    (
        read_next(
            values,
            address.as_str(),
            "behavior_instance",
            "reading what the switches already control",
        ),
        setup::state_with(
            state_catalog(values, address.as_str(), "behaviours", found).with("rooms", names),
        ),
    )
}

/// Whether what the automations say can be written into the devices gathered so far.
pub open spec fn can_wire(values: JView, input: Members) -> bool {
    let data = catalog::data_or_none(json::lookup(input, "response"@));
    forall|i: int|
        0 <= i < setup::gathered(values).len() ==> behaviour::can_be_wired(
            #[trigger] setup::gathered(values)[i],
            data,
            json::or_null(values.get("rooms"@)),
        )
}

/// What the automations say each switch controls is written down, and the scenes are read.
pub open spec fn behaviours_answered(values: JView, input: Members) -> Outcome {
    let data = catalog::data_or_none(json::lookup(input, "response"@));
    let names = json::or_null(values.get("rooms"@));
    (
        next_read(values, input, "scene"@, "reading the scenes"@),
        setup::state_of(
            json::put(
                with_catalog(
                    values,
                    input,
                    "hue_scenes"@,
                    setup::gathered(values).map_values(
                        |d: JView| behaviour::wired_upto(d, data, data.len(), names),
                    ),
                ),
                "rooms"@,
                names,
            ),
        ),
    )
}

fn behaviours(values: &Json, input: &Object) -> (r: (SetupStep, SetupState))
    requires
        can_wire(values@, input@),
    ensures
        (r.0@, r.1@) == behaviours_answered(values@, input@),
{
    let address = setup::address_known(values, input);
    let mut found = setup::gathered_in(values);
    let names = json::value_or_null(values.get("rooms"));
    assert forall|i: int| 0 <= i < found@.len() implies behaviour::can_be_wired(
        (#[trigger] found@[i])@,
        catalog::data_or_none(json::lookup(input@, "response"@)),
        names@,
    ) by {
        assert(text::views(found@)[i] == setup::gathered(values@)[i]);
    }
    behaviour::apply_behaviours(&mut found, input.get("response"), &names);
    (
        read_next(values, address.as_str(), "scene", "reading the scenes"),
        setup::state_with(
            state_catalog(values, address.as_str(), "hue_scenes", found).with("rooms", names),
        ),
    )
}

/// State with what an earlier step left, kept as it is.
pub open spec fn keeping(members: Members, values: JView, key: Seq<char>) -> Members {
    json::put(members, key, json::or_null(values.get(key)))
}

fn keep(o: Object, values: &Json, key: &str) -> (r: Object)
    ensures
        r@ == keeping(o@, values@, key@),
{
    o.with(key, json::value_or_null(values.get(key)))
}

/// The scenes are carried as they are until it is known which lights were picked, and the lights
/// are read.
pub open spec fn scenes_answered(values: JView, input: Members) -> Outcome {
    let a = setup::carried(
        values,
        "lights"@,
        setup::known_address(values, input),
        setup::text_or_empty(values, "key"@),
    );
    let b = keeping(keeping(a, values, "catalog"@), values, "rooms"@);
    (
        next_read(values, input, "light"@, "reading the light list"@),
        setup::state_of(
            json::put(b, "hue_scenes"@, json::or_null(json::lookup(input, "response"@))),
        ),
    )
}

fn hue_scenes(values: &Json, input: &Object) -> (r: (SetupStep, SetupState))
    ensures
        (r.0@, r.1@) == scenes_answered(values@, input@),
{
    let address = setup::address_known(values, input);
    let a = setup::carry(values, "lights", address.as_str(), setup::text_of(values, "key"));
    let b = keep(keep(a, values, "catalog"), values, "rooms");
    (
        read_next(values, address.as_str(), "light", "reading the light list"),
        setup::state_with(b.with("hue_scenes", json::value_or_null(input.get("response")))),
    )
}

/// Why the bridge refused the light list, where it did.
pub open spec fn list_refused(input: Members) -> Option<Seq<char>> {
    let errors = json::list_or_empty(json::as_array(answered(input, "errors"@)));
    if errors.len() > 0 {
        json::as_str(errors[0].get("description"@))
    } else {
        None
    }
}

fn refused_list(input: &Object) -> (r: Option<&str>)
    ensures
        text::view_of(r) == list_refused(input@),
{
    match json::array_of(answer_at(input, "errors")) {
        Some(errors) => {
            assert(text::views(errors@).len() == errors@.len());
            if errors.len() > 0 {
                json::str_of(errors[0].get("description"))
            } else {
                None
            }
        },
        None => None,
    }
}

/// What a bulb can do.
pub open spec fn ability(light: JView) -> Seq<char> {
    if light.get("color"@) is Some {
        "colour"@
    } else if light.get("color_temperature"@) is Some {
        "tunable white"@
    } else if light.get("dimming"@) is Some {
        "dimmable"@
    } else {
        "on/off"@
    }
}

/// What the bridge says of a bulb right now: nothing of one that it cannot see.
pub open spec fn standing(light: JView) -> Seq<char> {
    match json::as_bool(light.get2("on"@, "on"@)) {
        Some(true) => "bridge reports it on"@,
        Some(false) => "bridge reports it off"@,
        None => "bridge cannot reach it — is it powered?"@,
    }
}

/// The properties of a bulb.
pub open spec fn bulb_properties(address: Seq<char>, key: Seq<char>, id: Seq<char>) -> Members {
    json::put(
        json::put(
            json::one("Bridge address"@, JView::Str(address)),
            "Application key"@,
            JView::Str(key),
        ),
        "Light id"@,
        JView::Str(id),
    )
}

/// A bulb as a device that could be adopted, in the room of the device that owns its light.
pub open spec fn bulb_of(
    light: JView,
    address: Seq<char>,
    key: Seq<char>,
    found: Seq<JView>,
) -> Option<CandidateView> {
    match json::as_str(light.get("id"@)) {
        Some(id) => Some(
            CandidateView {
                label: json::str_or(json::as_str(light.get2("metadata"@, "name"@)), "Hue light"@),
                kind: "light"@,
                driver_id: "signify.hue.bulb"@,
                properties: bulb_properties(address, key, id),
                verified: ability(light) + " — "@ + standing(light),
                room: json::str_or(catalog::light_room(found, id, 0), ""@),
            },
        ),
        None => None,
    }
}

/// The first `n` bulbs as devices that could be adopted, by label; bulbs with the same label keep
/// their order.
pub open spec fn bulbs_upto(
    data: Seq<JView>,
    n: nat,
    address: Seq<char>,
    key: Seq<char>,
    found: Seq<JView>,
) -> Seq<CandidateView>
    decreases n,
{
    if n == 0 {
        seq![]
    } else {
        let rest = bulbs_upto(data, (n - 1) as nat, address, key, found);
        match bulb_of(data[n - 1], address, key, found) {
            Some(c) => rest.insert(offer::label_slot(rest, c.label, 0) as int, c),
            None => rest,
        }
    }
}

/// How many lights and accessories there are, in words.
pub open spec fn counted(bulbs: nat, extras: nat) -> Seq<char> {
    if extras == 0 {
        text::decimal(bulbs) + " light(s)"@ + " on this bridge"@
    } else if bulbs == 0 {
        text::decimal(extras) + " accessor"@ + setup::plural_of(extras) + " on this bridge"@
    } else {
        text::decimal(bulbs) + " light(s) and "@ + text::decimal(extras) + " accessor"@
            + setup::plural_of(extras) + " on this bridge"@
    }
}

/// Everything paired to the bridge is offered: the bulbs, then the sensors and controls. Nothing
/// paired at all is a failure; no bulbs is not.
pub open spec fn lights_answered(values: JView, input: Members) -> Outcome {
    let address = setup::known_address(values, input);
    let key = setup::text_or_empty(values, "key"@);
    let data = catalog::data_or_none(json::lookup(input, "response"@));
    let found = setup::gathered(values);
    let bulbs = bulbs_upto(data, data.len(), address, key, found);
    let extras = offer::offers(found, found.len(), address, key);
    match list_refused(input) {
        Some(err) => setup::given_up("the bridge refused the light list: "@ + err),
        None => if (bulbs + extras).len() == 0 {
            setup::given_up(setup::NOTHING_PAIRED@)
        } else {
            let a = setup::carried(values, "chosen"@, address, key);
            let b = keeping(keeping(a, values, "catalog"@), values, "rooms"@);
            (
                SetupStepView::Choose {
                    title: counted(bulbs.len(), extras.len()),
                    body: setup::HOW_TO_CHOOSE@,
                    options: bulbs + extras,
                    multiple: true,
                },
                setup::state_of(keeping(b, values, "hue_scenes"@)),
            )
        },
    }
}

fn bulb(light: &Json, address: &str, key: &str, found: &Vec<Json>) -> (r: Option<Candidate>)
    ensures
        text::view_of(r) == bulb_of(light@, address@, key@, text::views(found@)),
{
    let id = match json::str_of(light.get("id")) {
        Some(s) => s,
        None => {
            return None;
        },
    };
    let name = match json::str_of(light.get2("metadata", "name")) {
        Some(s) => s,
        None => "Hue light",
    };
    let state = match json::bool_of(light.get2("on", "on")) {
        Some(true) => "bridge reports it on",
        Some(false) => "bridge reports it off",
        None => "bridge cannot reach it — is it powered?",
    };
    let can = if light.get("color").is_some() {
        "colour"
    } else if light.get("color_temperature").is_some() {
        "tunable white"
    } else if light.get("dimming").is_some() {
        "dimmable"
    } else {
        "on/off"
    };
    let mut verified = can.to_string();
    verified.append(" — ");
    verified.append(state);
    let room = match catalog::room_of_light(found, id) {
        Some(room) => room,
        None => "".to_string(),
    };
    Some(
        Candidate {
            label: name.to_string(),
            kind: "light".to_string(),
            driver_id: "signify.hue.bulb".to_string(),
            properties: Object::new().with("Bridge address", Json::text(address)).with(
                "Application key",
                Json::text(key),
            ).with("Light id", Json::text(id)),
            verified,
            room,
        },
    )
}

fn bulbs(data: &Vec<Json>, address: &str, key: &str, found: &Vec<Json>) -> (r: Vec<Candidate>)
    ensures
        text::views(r@) == bulbs_upto(
            text::views(data@),
            data@.len(),
            address@,
            key@,
            text::views(found@),
        ),
{
    let mut out: Vec<Candidate> = Vec::new();
    assert(text::views(out@) =~= seq![]);
    let mut n: usize = 0;
    while n < data.len()
        invariant
            n <= data.len(),
            text::views(out@) == bulbs_upto(
                text::views(data@),
                n as nat,
                address@,
                key@,
                text::views(found@),
            ),
        decreases data.len() - n,
    {
        match bulb(&data[n], address, key, found) {
            Some(c) => offer::place(&mut out, c),
            None => {},
        }
        n = n + 1;
    }
    out
}

fn count_title(bulbs: usize, extras: usize) -> (r: String)
    ensures
        r@ == counted(bulbs as nat, extras as nat),
{
    let mut title = if extras == 0 {
        let mut t = text::decimal_text(bulbs as u64);
        t.append(" light(s)");
        t
    } else if bulbs == 0 {
        let mut t = text::decimal_text(extras as u64);
        t.append(" accessor");
        t.append(setup::plural(extras));
        t
    } else {
        let mut t = text::decimal_text(bulbs as u64);
        t.append(" light(s) and ");
        t.append(text::decimal_text(extras as u64).as_str());
        t.append(" accessor");
        t.append(setup::plural(extras));
        t
    };
    title.append(" on this bridge");
    title
}

fn lights(values: &Json, input: &Object) -> (r: (SetupStep, SetupState))
    ensures
        (r.0@, r.1@) == lights_answered(values@, input@),
{
    let address = setup::address_known(values, input);
    let key = setup::text_of(values, "key");
    match refused_list(input) {
        Some(err) => {
            let mut reason = "the bridge refused the light list: ".to_string();
            reason.append(err);
            return setup::give_up(reason);
        },
        None => {},
    }
    let empty: Vec<Json> = Vec::new();
    assert(text::views(empty@) =~= seq![]);
    let data = match catalog::data_of(input.get("response")) {
        Some(data) => data,
        None => &empty,
    };
    assert(text::views(data@).len() == data@.len());
    let found = setup::gathered_in(values);
    assert(text::views(found@).len() == found@.len());
    let mut options = bulbs(data, address.as_str(), key, &found);
    let ghost some = text::views(options@);
    let count = options.len();
    let mut accessories = offer::candidates(&found, address.as_str(), key);
    let ghost more = text::views(accessories@);
    let extras = accessories.len();
    options.append(&mut accessories);
    assert(text::views(options@) =~= some + more);
    assert(some.len() == count && more.len() == extras);
    if options.len() == 0 {
        return setup::give_up(setup::NOTHING_PAIRED.to_string());
    }
    let a = setup::carry(values, "chosen", address.as_str(), key);
    let b = keep(keep(a, values, "catalog"), values, "rooms");
    (
        SetupStep::Choose {
            title: count_title(count, extras),
            body: setup::HOW_TO_CHOOSE.to_string(),
            options,
            multiple: true,
        },
        setup::state_with(keep(b, values, "hue_scenes")),
    )
}

/// A device without the connection that the bridge in front of it holds.
pub open spec fn bare(c: CandidateView) -> CandidateView {
    CandidateView {
        properties: json::without(
            json::without(c.properties, "Bridge address"@),
            "Application key"@,
        ),
        ..c
    }
}

/// The bridge itself as a device, with so many behind it. It is in no room.
pub open spec fn bridge_of(name: Seq<char>, address: Seq<char>, key: Seq<char>, count: nat) ->
    CandidateView {
    CandidateView {
        label: name,
        kind: "bridge"@,
        driver_id: "signify.hue.bridge"@,
        properties: json::put(
            json::one("Bridge address"@, JView::Str(address)),
            "Application key"@,
            JView::Str(key),
        ),
        verified: text::decimal(count) + " device(s) behind it"@,
        room: ""@,
    }
}

/// The titles of the first `n` scenes.
pub open spec fn titles(scenes: Seq<ImportedSceneView>, n: nat) -> Seq<Seq<char>> {
    Seq::new(n, |i: int| scenes[i].title)
}

/// The question whether the bridge's scenes should come too: skipped where there are none.
pub open spec fn scenes_asked(
    devices: Seq<CandidateView>,
    rules: Seq<ImportedRuleView>,
    scenes: Seq<ImportedSceneView>,
) -> Outcome {
    let n = scenes.len();
    let shown: nat = if n < 4 {
        n
    } else {
        4
    };
    if n == 0 {
        (SetupStepView::Done { devices, rules, scenes }, setup::over())
    } else {
        (
            SetupStepView::Form {
                title: "Bring over "@ + text::decimal(n) + " scene"@ + setup::ending(n) + "?"@,
                body: "The bridge has "@ + text::decimal(n) + " saved — "@ + text::joined(
                    titles(scenes, shown),
                    shown,
                    ", "@,
                ) + (if n > shown {
                    " and others"@
                } else {
                    ""@
                }) + setup::ABOUT_SCENES@,
                fields: seq![
                    FieldView {
                        name: "scenes"@,
                        label: "Scenes"@,
                        kind: "choice"@,
                        help: ""@,
                        default: Some(JView::Str("Bring them over"@)),
                        options: seq!["Bring them over"@, "Leave them"@],
                        required: true,
                    },
                ],
            },
            SetupStateView::SceneChoice { devices, rules, scenes },
        )
    }
}

fn scenes_field() -> (r: Field)
    ensures
        r@ == (FieldView {
            name: "scenes"@,
            label: "Scenes"@,
            kind: "choice"@,
            help: ""@,
            default: Some(JView::Str("Bring them over"@)),
            options: seq!["Bring them over"@, "Leave them"@],
            required: true,
        }),
{
    let mut options: Vec<String> = Vec::new();
    options.push("Bring them over".to_string());
    options.push("Leave them".to_string());
    assert(text::views(options@) =~= seq!["Bring them over"@, "Leave them"@]);
    Field {
        name: "scenes".to_string(),
        label: "Scenes".to_string(),
        kind: "choice".to_string(),
        help: "".to_string(),
        default: Some(Json::text("Bring them over")),
        options,
        required: true,
    }
}

/// Finishes, asking first whether the bridge's scenes should come too.
///
/// The ones that survive this far already touch a light that was picked, so the question is only
/// ever about scenes that would work.
pub fn ask_about_scenes(
    devices: Vec<Candidate>,
    rules: Vec<ImportedRule>,
    scenes: Vec<ImportedScene>,
) -> (r: (SetupStep, SetupState))
    ensures
        (r.0@, r.1@) == scenes_asked(
            text::views(devices@),
            text::views(rules@),
            text::views(scenes@),
        ),
{
    let ghost all = text::views(scenes@);
    assert(all.len() == scenes@.len());
    if scenes.len() == 0 {
        return (SetupStep::Done { devices, rules, scenes }, SetupState::Values(Json::Null));
    }
    let n = scenes.len();
    let shown: usize = if n < 4 {
        n
    } else {
        4
    };
    let mut names: Vec<String> = Vec::new();
    let mut i: usize = 0;
    assert(text::views(names@) =~= titles(all, 0));
    while i < shown
        invariant
            i <= shown <= scenes.len(),
            all == text::views(scenes@),
            text::views(names@) == titles(all, i as nat),
        decreases shown - i,
    {
        broadcast use text::views_push;

        names.push(scenes[i].title.clone());
        assert(text::views(names@) =~= titles(all, (i + 1) as nat));
        i = i + 1;
    }
    assert(text::views(names@).len() == names@.len());
    let mut title = "Bring over ".to_string();
    title.append(text::decimal_text(n as u64).as_str());
    title.append(" scene");
    title.append(setup::ending_of(n));
    title.append("?");
    let mut body = "The bridge has ".to_string();
    body.append(text::decimal_text(n as u64).as_str());
    body.append(" saved — ");
    body.append(text::join(&names, ", ").as_str());
    body.append(
        if n > shown {
            " and others"
        } else {
            ""
        },
    );
    body.append(setup::ABOUT_SCENES);
    (
        SetupStep::Form { title, body, fields: setup::one_field(scenes_field()) },
        SetupState::SceneChoice { devices, rules, scenes },
    )
}

/// What was picked becomes the devices to adopt, with the rules and scenes the bridge has for
/// them. A bridge that is being set up comes first and carries the connection; of one that is
/// being browsed, only what is behind it is new.
pub open spec fn choice_made(values: JView, input: Members, chosen: Seq<CandidateView>) -> Outcome {
    let found = setup::gathered(values);
    let data = catalog::data_or_none(values.get("hue_scenes"@));
    let behind = chosen.map_values(|c: CandidateView| bare(c));
    if setup::is_browsing(values) {
        scenes_asked(
            behind,
            imports::proposed(found, found.len(), chosen),
            imports::imported_upto(data, data.len(), chosen),
        )
    } else {
        let bridge = bridge_of(
            json::str_or(json::as_str(values.get("name"@)), "Hue Bridge"@),
            setup::known_address(values, input),
            setup::text_or_empty(values, "key"@),
            chosen.len(),
        );
        let devices = seq![bridge] + behind;
        scenes_asked(
            devices,
            imports::proposed(found, found.len(), devices),
            imports::imported_upto(data, data.len(), devices),
        )
    }
}

fn strip(c: &mut Candidate)
    ensures
        final(c)@ == bare(old(c)@),
{
    c.properties.remove("Bridge address");
    c.properties.remove("Application key");
}

fn strip_all(chosen: Vec<Candidate>) -> (r: Vec<Candidate>)
    ensures
        text::views(r@) == text::views(chosen@).map_values(|c: CandidateView| bare(c)),
{
    let ghost all = text::views(chosen@);
    let mut out = chosen;
    let mut i: usize = 0;
    while i < out.len()
        invariant
            i <= out.len(),
            out@.len() == all.len(),
            forall|k: int| 0 <= k < i ==> (#[trigger] out@[k])@ == bare(all[k]),
            forall|k: int| i <= k < out@.len() ==> (#[trigger] out@[k])@ == all[k],
        decreases out.len() - i,
    {
        strip(&mut out[i]);
        i = i + 1;
    }
    assert(text::views(out@) =~= all.map_values(|c: CandidateView| bare(c)));
    out
}

fn choose_devices(values: &Json, input: &Object, chosen: Vec<Candidate>) -> (r: (
    SetupStep,
    SetupState,
))
    ensures
        (r.0@, r.1@) == choice_made(values@, input@, text::views(chosen@)),
{
    let found = setup::gathered_in(values);
    assert(text::views(found@).len() == found@.len());
    let response = values.get("hue_scenes");
    if setup::browsing(values) {
        let rules = imports::rules(&found, &chosen);
        let scenes = imports::scenes(response, &chosen);
        return ask_about_scenes(strip_all(chosen), rules, scenes);
    }
    let address = setup::address_known(values, input);
    let key = setup::text_of(values, "key");
    let name = match json::str_of(values.get("name")) {
        Some(s) => s,
        None => "Hue Bridge",
    };
    assert(text::views(chosen@).len() == chosen@.len());
    let mut verified = text::decimal_text(chosen.len() as u64);
    verified.append(" device(s) behind it");
    let bridge = Candidate {
        label: name.to_string(),
        kind: "bridge".to_string(),
        driver_id: "signify.hue.bridge".to_string(),
        properties: Object::new().with("Bridge address", Json::text(address.as_str())).with(
            "Application key",
            Json::text(key),
        ),
        verified,
        room: "".to_string(),
    };
    let ghost first = bridge@;
    let mut devices: Vec<Candidate> = Vec::new();
    devices.push(bridge);
    let mut behind = strip_all(chosen);
    let ghost rest = text::views(behind@);
    devices.append(&mut behind);
    assert(text::views(devices@) =~= seq![first] + rest);
    // Indices are into the list that is handed over, and the bridge is the first entry of it.
    let rules = imports::rules(&found, &devices);
    let scenes = imports::scenes(response, &devices);
    ask_about_scenes(devices, rules, scenes)
}

/// The answer to the question about the scenes.
pub open spec fn settled(
    devices: Seq<CandidateView>,
    rules: Seq<ImportedRuleView>,
    scenes: Seq<ImportedSceneView>,
    input: Members,
) -> Outcome {
    let take = match json::as_str(json::lookup(input, "scenes"@)) {
        Some(answer) => text::begins(answer, "Bring"@),
        None => false,
    };
    (
        SetupStepView::Done {
            devices,
            rules,
            scenes: if take {
                scenes
            } else {
                seq![]
            },
        },
        setup::over(),
    )
}

fn settle(
    devices: Vec<Candidate>,
    rules: Vec<ImportedRule>,
    scenes: Vec<ImportedScene>,
    input: &Object,
) -> (r: (SetupStep, SetupState))
    ensures
        (r.0@, r.1@) == settled(
            text::views(devices@),
            text::views(rules@),
            text::views(scenes@),
            input@,
        ),
{
    let take = match json::str_of(input.get("scenes")) {
        Some(answer) => text::starts_with(answer, "Bring"),
        None => false,
    };
    let none: Vec<ImportedScene> = Vec::new();
    assert(text::views(none@) =~= seq![]);
    (
        SetupStep::Done {
            devices,
            rules,
            scenes: if take {
                scenes
            } else {
                none
            },
        },
        SetupState::Values(Json::Null),
    )
}

/// What a step comes to. `chosen` is what was picked, of what the step before offered.
pub open spec fn stepped(state: SetupStateView, input: Members, chosen: Seq<CandidateView>) -> Outcome {
    match state {
        SetupStateView::SceneChoice { devices, rules, scenes } => settled(
            devices,
            rules,
            scenes,
            input,
        ),
        SetupStateView::Values(values) => {
            let phase = setup::phase_of(values);
            if phase == "start"@ {
                if setup::is_browsing(values) {
                    browse_begun(values)
                } else {
                    setup::address_asked(values)
                }
            } else if phase == "probe"@ {
                probing(values, input)
            } else if phase == "probed"@ {
                probe_answered(values, input)
            } else if phase == "pair"@ {
                pairing(values, input)
            } else if phase == "paired"@ {
                pairing_answered(values, input)
            } else if phase == "devices"@ {
                devices_answered(values, input)
            } else if phase == "buttons"@ {
                buttons_answered(values, input)
            } else if phase == "rooms"@ {
                rooms_answered(values, input)
            } else if phase == "behaviours"@ {
                behaviours_answered(values, input)
            } else if phase == "hue_scenes"@ {
                scenes_answered(values, input)
            } else if phase == "lights"@ {
                lights_answered(values, input)
            } else if phase == "chosen"@ {
                choice_made(values, input, chosen)
            } else if phase == "scene_choice"@ {
                settled(seq![], seq![], seq![], input)
            } else {
                setup::given_up("unknown setup phase `"@ + phase + "`"@)
            }
        },
    }
}

/// Whether plain values hold nothing of what was chosen. Where there is something, the question
/// about the scenes is open, and the state is a [`SetupStateView::SceneChoice`].
pub open spec fn holds_no_choice(values: JView) -> bool {
    values.get("devices"@) is None && values.get("rules"@) is None && values.get("scenes"@) is None
}

/// Whether a step can be taken: the attempts can still be counted, what the automations say can be
/// written into the devices, and what was chosen has been taken out of plain values.
pub open spec fn can_step(state: SetupStateView, input: Members) -> bool {
    match state {
        SetupStateView::SceneChoice { .. } => true,
        SetupStateView::Values(values) => {
            &&& setup::phase_of(values) == "pair"@ ==> attempts(values, 0) < u64::MAX
            &&& setup::phase_of(values) == "behaviours"@ ==> can_wire(values, input)
            &&& setup::phase_of(values) == "scene_choice"@ ==> holds_no_choice(values)
        },
    }
}

/// Whether a step can be taken.
pub fn is_ready(state: &SetupState, input: &Object) -> (r: bool)
    ensures
        r == can_step(state@, input@),
{
    match state {
        SetupState::SceneChoice { .. } => true,
        SetupState::Values(values) => {
            let phase = setup::phase(values);
            let countable = !text::same(phase, "pair") || attempts_in(values, 0) < u64::MAX;
            let nothing = values.get("devices").is_none() && values.get("rules").is_none()
                && values.get("scenes").is_none();
            let taken_out = !text::same(phase, "scene_choice") || nothing;
            if !text::same(phase, "behaviours") {
                return countable && taken_out;
            }
            let found = setup::gathered_in(values);
            let names = json::value_or_null(values.get("rooms"));
            let wirable = behaviour::can_apply(&found, input.get("response"), &names);
            proof {
                let data = catalog::data_or_none(json::lookup(input@, "response"@));
                let all = setup::gathered(values@);
                assert(all == text::views(found@));
                if wirable {
                    assert forall|i: int| 0 <= i < all.len() implies behaviour::can_be_wired(
                        #[trigger] all[i],
                        data,
                        names@,
                    ) by {
                        assert(all[i] == found@[i]@);
                    }
                } else {
                    let i = choose|i: int|
                        0 <= i < found@.len() && !behaviour::can_be_wired(
                            (#[trigger] found@[i])@,
                            data,
                            names@,
                        );
                    assert(all[i] == found@[i]@);
                }
            }
            countable && taken_out && wirable
        },
    }
}

fn empty_settle(input: &Object) -> (r: (SetupStep, SetupState))
    ensures
        (r.0@, r.1@) == settled(seq![], seq![], seq![], input@),
{
    let devices: Vec<Candidate> = Vec::new();
    let rules: Vec<ImportedRule> = Vec::new();
    let scenes: Vec<ImportedScene> = Vec::new();
    assert(text::views(devices@) =~= seq![]);
    assert(text::views(rules@) =~= seq![]);
    assert(text::views(scenes@) =~= seq![]);
    settle(devices, rules, scenes, input)
}

impl HueBulb {
    /// One step of setting a bridge up. `chosen` is what was picked, of what the step before
    /// offered.
    pub fn step(&self, state: SetupState, input: &Object, chosen: Vec<Candidate>) -> (r: (
        SetupStep,
        SetupState,
    ))
        requires
            can_step(state@, input@),
        ensures
            (r.0@, r.1@) == stepped(state@, input@, text::views(chosen@)),
    {
        let values = match state {
            SetupState::SceneChoice { devices, rules, scenes } => {
                return settle(devices, rules, scenes, input);
            },
            SetupState::Values(values) => values,
        };
        let at = setup::phase(&values);
        if text::same(at, "start") {
            if setup::browsing(&values) {
                begin_browse(&values)
            } else {
                HueBulb::ask_for_address(&values)
            }
        } else if text::same(at, "probe") {
            probe(&values, input)
        } else if text::same(at, "probed") {
            probed(&values, input)
        } else if text::same(at, "pair") {
            pair(&values, input)
        } else if text::same(at, "paired") {
            paired(&values, input)
        } else if text::same(at, "devices") {
            devices(&values, input)
        } else if text::same(at, "buttons") {
            buttons(&values, input)
        } else if text::same(at, "rooms") {
            rooms(&values, input)
        } else if text::same(at, "behaviours") {
            behaviours(&values, input)
        } else if text::same(at, "hue_scenes") {
            hue_scenes(&values, input)
        } else if text::same(at, "lights") {
            lights(&values, input)
        } else if text::same(at, "chosen") {
            choose_devices(&values, input, chosen)
        } else if text::same(at, "scene_choice") {
            empty_settle(input)
        } else {
            let mut reason = "unknown setup phase `".to_string();
            reason.append(at);
            reason.append("`");
            setup::give_up(reason)
        }
    }

    /// Finding a bridge is setting it up.
    pub fn discover(
        &self,
        _driver_id: &str,
        state: SetupState,
        input: &Object,
        chosen: Vec<Candidate>,
    ) -> (r: (SetupStep, SetupState))
        requires
            can_step(state@, input@),
        ensures
            (r.0@, r.1@) == stepped(state@, input@, text::views(chosen@)),
    {
        self.step(state, input, chosen)
    }

    /// Setting a bridge up.
    pub fn setup(
        &self,
        _driver_id: &str,
        state: SetupState,
        input: &Object,
        chosen: Vec<Candidate>,
    ) -> (r: (SetupStep, SetupState))
        requires
            can_step(state@, input@),
        ensures
            (r.0@, r.1@) == stepped(state@, input@, text::views(chosen@)),
    {
        self.step(state, input, chosen)
    }
}

} // verus!
