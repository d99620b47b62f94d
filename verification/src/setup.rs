//! Setting a bridge up: where it is, the link button, and what is paired to it.
//!
//! Nothing is remembered here between two steps. Each step is handed the state that the one before
//! it left, and leaves the state for the next.

use vstd::prelude::*;
use vstd::string::StringExecFns;
use crate::bulb::HueBulb;
use crate::catalog;
use crate::host;
use crate::host::{
    Candidate, CandidateView, Field, FieldView, HttpRequest, ImportedRule, ImportedRuleView,
    ImportedScene, ImportedSceneView, PickRow, PickRowView, SetupStep, SetupStepView,
};
use crate::json;
use crate::json::{JView, Json, Members, Object};
use crate::text;

verus! {

/// Where an address is found when nothing announced itself.
pub const WHERE_ADDRESS: &'static str =
    "Nothing announced itself on the network, so enter the bridge's address. It is in the Hue app under Settings → My Hue System → the (i) beside your bridge.";

/// Why a bridge that has not been paired cannot be browsed.
pub const NOT_PAIRED: &'static str = "this bridge has no address or key set — pair it first";

/// What is said of an address that is no bridge.
pub const NO_BRIDGE: &'static str =
    " did not answer as a Hue bridge. Check the address — the Hue app shows it under Settings → My Hue System.";

/// What the link button is for.
pub const LINK_BUTTON: &'static str =
    "The round button on top of the bridge. This is how the bridge confirms someone with physical access approved this — there is no way around it.";

/// What is said when the link button was not pressed.
pub const NOT_PRESSED: &'static str = "the link button was not pressed in time — start again";

/// What is said of a bridge with nothing behind it.
pub const NOTHING_PAIRED: &'static str =
    "the bridge reported nothing paired to it — add your lights and accessories in the Hue app first";

/// How to choose what to add.
pub const HOW_TO_CHOOSE: &'static str =
    "Pick the ones to add. Anything the bridge cannot reach is marked — a bulb switched off at the wall will say so. A remote or a sensor is added as one device with a binding per button or measurement, so a rule can trigger on exactly one of them.";

/// What bringing scenes over means.
pub const ABOUT_SCENES: &'static str =
    ". Each is a set of levels and colours, one per light, and they come over exactly as they are. Skipping this changes nothing else; the lights and remotes are added either way.";

/// How often the bridge is asked for a key before giving up.
pub const ATTEMPTS: u64 = 30;

/// What one step leaves for the next.
#[derive(Debug, PartialEq)]
pub enum SetupState {
    /// Plain values, with the phase under `phase`.
    Values(Json),
    /// What was chosen, while the question about its scenes is open.
    SceneChoice {
        devices: Vec<Candidate>,
        rules: Vec<ImportedRule>,
        scenes: Vec<ImportedScene>,
    },
}

/// The view of [`SetupState`].
pub enum SetupStateView {
    Values(JView),
    SceneChoice {
        devices: Seq<CandidateView>,
        rules: Seq<ImportedRuleView>,
        scenes: Seq<ImportedSceneView>,
    },
}

impl View for SetupState {
    type V = SetupStateView;

    open spec fn view(&self) -> SetupStateView {
        match self {
            SetupState::Values(values) => SetupStateView::Values(values@),
            SetupState::SceneChoice { devices, rules, scenes } => SetupStateView::SceneChoice {
                devices: text::views(devices@),
                rules: text::views(rules@),
                scenes: text::views(scenes@),
            },
        }
    }
}

/// What a step comes to: what is asked for, and the state for the next step.
pub type Outcome = (SetupStepView, SetupStateView);

/// The setup is over.
pub open spec fn over() -> SetupStateView {
    SetupStateView::Values(JView::Null)
}

/// Giving up, for a reason.
pub open spec fn given_up(reason: Seq<char>) -> Outcome {
    (SetupStepView::Failed { reason }, over())
}

pub(crate) fn give_up(reason: String) -> (r: (SetupStep, SetupState))
    ensures
        (r.0@, r.1@) == given_up(reason@),
{
    (SetupStep::Failed { reason }, SetupState::Values(Json::Null))
}

/// Where the setup is.
pub open spec fn phase_of(values: JView) -> Seq<char> {
    json::str_or(json::as_str(values.get("phase"@)), "start"@)
}

/// Where the setup is.
pub fn phase(values: &Json) -> (r: &str)
    ensures
        r@ == phase_of(values@),
{
    match json::str_of(values.get("phase")) {
        Some(s) => s,
        None => "start",
    }
}

/// A text among some values, or the empty one.
pub open spec fn text_or_empty(values: JView, key: Seq<char>) -> Seq<char> {
    json::str_or(json::as_str(values.get(key)), ""@)
}

pub(crate) fn text_of<'a>(values: &'a Json, key: &str) -> (r: &'a str)
    ensures
        r@ == text_or_empty(values@, key@),
{
    match json::str_of(values.get(key)) {
        Some(s) => s,
        None => "",
    }
}

/// The address of the bridge, where it is known: from the state, or as it was typed.
pub open spec fn address_of(values: JView, input: Members) -> Option<Seq<char>> {
    match json::as_str(values.get("address"@)) {
        Some(a) => Some(a),
        None => match json::as_str(json::lookup(input, "address"@)) {
            Some(typed) => Some(text::trimmed(typed)),
            None => None,
        },
    }
}

pub(crate) fn address_in(values: &Json, input: &Object) -> (r: Option<String>)
    ensures
        text::view_of(r) == address_of(values@, input@),
{
    match json::str_of(values.get("address")) {
        Some(a) => Some(a.to_string()),
        None => match json::str_of(input.get("address")) {
            Some(typed) => Some(text::trim(typed)),
            None => None,
        },
    }
}

/// The address of the bridge, or the empty one.
pub open spec fn known_address(values: JView, input: Members) -> Seq<char> {
    json::str_or(address_of(values, input), ""@)
}

pub(crate) fn address_known(values: &Json, input: &Object) -> (r: String)
    ensures
        r@ == known_address(values@, input@),
{
    match address_in(values, input) {
        Some(a) => a,
        None => "".to_string(),
    }
}

/// Whether a bridge that is already set up is being browsed.
pub open spec fn is_browsing(values: JView) -> bool {
    json::as_bool(values.get("browse"@)) == Some(true)
}

pub(crate) fn browsing(values: &Json) -> (r: bool)
    ensures
        r == is_browsing(values@),
{
    match json::bool_of(values.get("browse")) {
        Some(b) => b,
        None => false,
    }
}

/// The devices gathered so far.
pub open spec fn gathered(values: JView) -> Seq<JView> {
    json::list_or_empty(json::as_array(values.get("catalog"@)))
}

pub(crate) fn gathered_in(values: &Json) -> (r: Vec<Json>)
    ensures
        text::views(r@) == gathered(values@),
{
    match json::array_of(values.get("catalog")) {
        Some(items) => crate::bridge::copies(items),
        None => {
            let none: Vec<Json> = Vec::new();
            assert(text::views(none@) =~= seq![]);
            none
        },
    }
}

/// A read of the bridge, with its key.
pub open spec fn fetched(
    address: Seq<char>,
    path: Seq<char>,
    key: Seq<char>,
    note: Seq<char>,
) -> SetupStepView {
    SetupStepView::Fetch {
        request: host::with_header(
            host::request("GET"@, "https://"@ + address + path),
            "hue-application-key"@,
            key,
        ),
        note,
    }
}

pub(crate) fn fetch(address: &str, path: &str, key: &str, note: &str) -> (r: SetupStep)
    ensures
        r@ == fetched(address@, path@, key@, note@),
{
    let mut url = "https://".to_string();
    url.append(address);
    url.append(path);
    SetupStep::Fetch {
        request: HttpRequest::new("GET", url).header("hue-application-key", key),
        note: note.to_string(),
    }
}

/// What is carried from step to step: the phase, the connection, and what is being browsed.
pub open spec fn carried(
    values: JView,
    phase: Seq<char>,
    address: Seq<char>,
    key: Seq<char>,
) -> Members {
    let a = json::one("phase"@, JView::Str(phase));
    let b = json::put(a, "address"@, JView::Str(address));
    let c = json::put(b, "key"@, JView::Str(key));
    let d = json::put(c, "browse"@, JView::Bool(is_browsing(values)));
    json::put(d, "parent"@, json::or_null(values.get("parent"@)))
}

pub(crate) fn carry(values: &Json, phase: &str, address: &str, key: &str) -> (r: Object)
    ensures
        r@ == carried(values@, phase@, address@, key@),
{
    Object::new().with("phase", Json::text(phase)).with("address", Json::text(address)).with(
        "key",
        Json::text(key),
    ).with("browse", Json::Bool(browsing(values))).with(
        "parent",
        json::value_or_null(values.get("parent")),
    )
}

/// State made of plain values.
pub open spec fn state_of(members: Members) -> SetupStateView {
    SetupStateView::Values(JView::Obj(members))
}

pub(crate) fn state_with(o: Object) -> (r: SetupState)
    ensures
        r@ == state_of(o@),
{
    SetupState::Values(Json::object(o))
}

/// The ending of "accessory" for a count: "accessory", "accessories".
pub open spec fn plural_of(n: nat) -> Seq<char> {
    if n == 1 {
        "y"@
    } else {
        "ies"@
    }
}

/// The ending of "accessory" for a count: "accessory", "accessories".
pub fn plural(n: usize) -> (r: &'static str)
    ensures
        r@ == plural_of(n as nat),
{
    if n == 1 {
        "y"
    } else {
        "ies"
    }
}

/// A field for a line of text.
pub open spec fn field_of(name: Seq<char>, label: Seq<char>, help: Seq<char>) -> FieldView {
    FieldView {
        name,
        label,
        kind: "string"@,
        help,
        default: None,
        options: seq![],
        required: true,
    }
}

/// A field for a line of text.
pub fn field(name: &str, label: &str, help: &str) -> (r: Field)
    ensures
        r@ == field_of(name@, label@, help@),
{
    let options: Vec<String> = Vec::new();
    assert(text::views(options@) =~= seq![]);
    Field {
        name: name.to_string(),
        label: label.to_string(),
        kind: "string".to_string(),
        help: help.to_string(),
        default: None,
        options,
        required: true,
    }
}

/// The field that an address is typed into.
pub open spec fn address_field() -> FieldView {
    field_of("address"@, "Bridge address"@, "for example 192.168.1.42"@)
}

/// What a bridge announced under a key.
pub open spec fn announced(found: JView, key: Seq<char>, other: Seq<char>) -> Seq<char> {
    json::str_or(json::as_str(found.get2("txt"@, key)), other)
}

/// A bridge that announced itself, as a row: its readable name, its address and its model. Nothing
/// of one without an address.
pub open spec fn row_of(found: JView) -> Option<PickRowView> {
    match json::as_str(found.get("address"@)) {
        Some(address) => {
            let name = json::str_or(json::as_str(found.get("name"@)), "Hue bridge"@);
            let id = announced(found, "bridgeid"@, ""@);
            Some(
                PickRowView {
                    value: address,
                    cells: seq![text::first_label(name), address, announced(found, "modelid"@, "—"@)],
                    note: if text::begins(address, "127."@) {
                        "on this machine only"@
                    } else if id.len() == 0 {
                        ""@
                    } else {
                        "id "@ + id
                    },
                },
            )
        },
        None => None,
    }
}

/// The first `n` bridges that announced themselves, as rows.
pub open spec fn rows_upto(found: Seq<JView>, n: nat) -> Seq<PickRowView>
    decreases n,
{
    if n == 0 {
        seq![]
    } else {
        let rest = rows_upto(found, (n - 1) as nat);
        match row_of(found[n - 1]) {
            Some(row) => rest.push(row),
            None => rest,
        }
    }
}

/// An "s" unless there is one.
pub open spec fn ending(n: nat) -> Seq<char> {
    if n == 1 {
        ""@
    } else {
        "s"@
    }
}

pub(crate) fn ending_of(n: usize) -> (r: &'static str)
    ensures
        r@ == ending(n as nat),
{
    if n == 1 {
        ""
    } else {
        "s"
    }
}

/// Whatever announced itself is offered, and an address can be typed anyway.
pub open spec fn address_asked(values: JView) -> Outcome {
    let found = json::list_or_empty(json::as_array(values.get("mdns_candidates"@)));
    let next = state_of(json::one("phase"@, JView::Str("probe"@)));
    if found.len() == 0 {
        (
            SetupStepView::Form {
                title: "Find your Hue bridge"@,
                body: WHERE_ADDRESS@,
                fields: seq![address_field()],
            },
            next,
        )
    } else {
        let rows = rows_upto(found, found.len());
        (
            SetupStepView::Pick {
                title: "Found "@ + text::decimal(rows.len()) + " Hue bridge"@ + ending(rows.len()),
                body: "Pick the one to set up."@,
                columns: seq!["Bridge"@, "Address"@, "Model"@],
                rows,
                field: "address"@,
                manual: Some(address_field()),
            },
            next,
        )
    }
}

fn announcement<'a>(found: &'a Json, key: &str, other: &'a str) -> (r: &'a str)
    ensures
        r@ == announced(found@, key@, other@),
{
    match json::str_of(found.get2("txt", key)) {
        Some(s) => s,
        None => other,
    }
}

fn three(a: String, b: String, c: String) -> (r: Vec<String>)
    ensures
        text::views(r@) == seq![a@, b@, c@],
{
    let mut list: Vec<String> = Vec::new();
    list.push(a);
    list.push(b);
    list.push(c);
    assert(text::views(list@) =~= seq![a@, b@, c@]);
    list
}

fn row(found: &Json) -> (r: Option<PickRow>)
    ensures
        text::view_of(r) == row_of(found@),
{
    match json::str_of(found.get("address")) {
        Some(address) => {
            let name = match json::str_of(found.get("name")) {
                Some(s) => s,
                None => "Hue bridge",
            };
            let model = announcement(found, "modelid", "—");
            let id = announcement(found, "bridgeid", "");
            // A loopback address is this machine, not a bridge anyone else can reach.
            let note = if text::starts_with(address, "127.") {
                "on this machine only".to_string()
            } else if text::is_empty(id) {
                "".to_string()
            } else {
                let mut n = "id ".to_string();
                n.append(id);
                n
            };
            Some(
                PickRow {
                    value: address.to_string(),
                    cells: three(text::up_to_dot(name), address.to_string(), model.to_string()),
                    note,
                },
            )
        },
        None => None,
    }
}

fn rows_of(found: &Vec<Json>) -> (r: Vec<PickRow>)
    ensures
        text::views(r@) == rows_upto(text::views(found@), found@.len()),
{
    let mut out: Vec<PickRow> = Vec::new();
    assert(text::views(out@) =~= seq![]);
    let mut i: usize = 0;
    while i < found.len()
        invariant
            i <= found.len(),
            text::views(out@) == rows_upto(text::views(found@), i as nat),
        decreases found.len() - i,
    {
        broadcast use text::views_push;

        match row(&found[i]) {
            Some(r) => out.push(r),
            None => {},
        }
        i = i + 1;
    }
    out
}

pub(crate) fn one_field(f: Field) -> (r: Vec<Field>)
    ensures
        text::views(r@) == seq![f@],
{
    let mut list: Vec<Field> = Vec::new();
    list.push(f);
    assert(text::views(list@) =~= seq![f@]);
    list
}

impl HueBulb {
    /// Offers whatever announced itself, and lets an address be typed anyway: multicast is blocked
    /// on plenty of networks.
    pub fn ask_for_address(values: &Json) -> (r: (SetupStep, SetupState))
        ensures
            (r.0@, r.1@) == address_asked(values@),
    {
        let typed = field("address", "Bridge address", "for example 192.168.1.42");
        let next = state_with(Object::new().with("phase", Json::text("probe")));
        match json::array_of(values.get("mdns_candidates")) {
            Some(found) => {
                assert(text::views(found@).len() == found@.len());
                if found.len() > 0 {
                    let rows = rows_of(found);
                    assert(text::views(rows@).len() == rows@.len());
                    let mut title = "Found ".to_string();
                    title.append(text::decimal_text(rows.len() as u64).as_str());
                    title.append(" Hue bridge");
                    title.append(ending_of(rows.len()));
                    let step = SetupStep::Pick {
                        title,
                        body: "Pick the one to set up.".to_string(),
                        columns: three(
                            "Bridge".to_string(),
                            "Address".to_string(),
                            "Model".to_string(),
                        ),
                        rows,
                        field: "address".to_string(),
                        manual: Some(typed),
                    };
                    return (step, next);
                }
            },
            None => {},
        }
        (
            SetupStep::Form {
                title: "Find your Hue bridge".to_string(),
                body: WHERE_ADDRESS.to_string(),
                fields: one_field(typed),
            },
            next,
        )
    }
}

} // verus!
