//! What this library and its host say to each other.

use vstd::prelude::*;
use crate::json;
use crate::json::{JView, Json, Members, Number, NumberView, Object};
use crate::text;

verus! {

/// A conversion that the host makes on a reading before it reports it.
#[derive(Clone, Copy, Debug, PartialEq, Eq, Structural)]
pub enum Conversion {
    /// Degrees Celsius, to one decimal.
    Celsius,
    /// Hue's logarithmic light level, to lux.
    Lux,
}

/// Who a scene on the bridge belongs to.
#[derive(Clone, Copy, Debug, PartialEq, Eq, Structural)]
pub enum SceneOwnership {
    /// Somebody made it in another app: it can be recalled and nothing else.
    Borrowed,
    /// It was published from here.
    Juno,
}

/// How a scene is recalled.
#[derive(Clone, Copy, Debug, PartialEq, Eq, Structural)]
pub enum SceneRecall {
    Static,
    Dynamic,
}

/// What can be asked of a scene.
#[derive(Clone, Copy, Debug, PartialEq, Eq, Structural)]
pub enum SceneOperation {
    Status,
    Recall { mode: SceneRecall },
    Detach,
    Synchronize,
}

/// What became of a request.
#[derive(Clone, Copy, Debug, PartialEq, Eq, Structural)]
pub enum GroupDisposition {
    Refused,
    Handled,
    Queued,
}

/// What the host keeps for one device: the properties it was adopted with, and what the driver
/// remembers between calls.
#[derive(Debug, PartialEq)]
pub struct Instance {
    pub properties: Object,
    pub scratch: Object,
}

/// The view of [`Instance`].
pub struct InstanceView {
    pub properties: Members,
    pub scratch: Members,
}

impl View for Instance {
    type V = InstanceView;

    open spec fn view(&self) -> InstanceView {
        InstanceView {
            properties: self.properties@,
            scratch: self.scratch@,
        }
    }
}

/// One request to the bridge.
#[derive(Debug, PartialEq)]
pub struct HttpRequest {
    pub method: String,
    pub url: String,
    pub headers: Vec<(String, String)>,
    /// JSON text.
    pub body: Option<String>,
}

/// The view of [`HttpRequest`].
pub struct HttpRequestView {
    pub method: Seq<char>,
    pub url: Seq<char>,
    pub headers: Seq<(Seq<char>, Seq<char>)>,
    pub body: Option<Seq<char>>,
}

impl View for HttpRequest {
    type V = HttpRequestView;

    open spec fn view(&self) -> HttpRequestView {
        HttpRequestView {
            method: self.method@,
            url: self.url@,
            headers: text::views(self.headers@),
            body: text::view_of(self.body),
        }
    }
}

/// One step of a scene that lives on the bridge, for the light that has these properties.
#[derive(Debug, PartialEq)]
pub struct BorrowedSceneStep {
    pub properties: Object,
    pub proxy: u32,
    pub command: String,
    pub args: Object,
}

/// The view of [`BorrowedSceneStep`].
pub struct BorrowedSceneStepView {
    pub properties: Members,
    pub proxy: u32,
    pub command: Seq<char>,
    pub args: Members,
}

impl View for BorrowedSceneStep {
    type V = BorrowedSceneStepView;

    open spec fn view(&self) -> BorrowedSceneStepView {
        BorrowedSceneStepView {
            properties: self.properties@,
            proxy: self.proxy,
            command: self.command@,
            args: self.args@,
        }
    }
}

/// A scene that lives on the bridge and is only ever recalled there.
#[derive(Debug, PartialEq)]
pub struct BorrowedSceneSnapshot {
    pub title: String,
    pub resource: String,
    pub dynamic_palette: bool,
    pub steps: Vec<BorrowedSceneStep>,
}

/// The view of [`BorrowedSceneSnapshot`].
pub struct BorrowedSceneSnapshotView {
    pub title: Seq<char>,
    pub resource: Seq<char>,
    pub dynamic_palette: bool,
    pub steps: Seq<BorrowedSceneStepView>,
}

impl View for BorrowedSceneSnapshot {
    type V = BorrowedSceneSnapshotView;

    open spec fn view(&self) -> BorrowedSceneSnapshotView {
        BorrowedSceneSnapshotView {
            title: self.title@,
            resource: self.resource@,
            dynamic_palette: self.dynamic_palette,
            steps: text::views(self.steps@),
        }
    }
}

/// What the host is asked to do.
#[derive(Debug, PartialEq)]
pub enum HostCall {
    /// Report that something changed on a binding.
    Notify { proxy: u32, name: String, args: Object },
    /// Report a reading on a binding once it has been converted: the argument `key` is the
    /// converted number.
    NotifyConverted {
        proxy: u32,
        name: String,
        key: String,
        conversion: Conversion,
        raw: Number,
    },
    /// Remember a value for display.
    SetState { proxy: u32, key: String, value: Json },
    /// Send a request to the bridge.
    Http(HttpRequest),
    /// Send raw bytes on a connection.
    Tx { control: u32, data: Vec<u8> },
    /// Tell whoever reads the log.
    Warn(String),
    /// Offer the scenes that live on the bridge.
    BorrowedScenes { scenes: Vec<BorrowedSceneSnapshot> },
}

/// The view of [`HostCall`].
pub enum HostCallView {
    Notify { proxy: u32, name: Seq<char>, args: Members },
    NotifyConverted {
        proxy: u32,
        name: Seq<char>,
        key: Seq<char>,
        conversion: Conversion,
        raw: NumberView,
    },
    SetState { proxy: u32, key: Seq<char>, value: JView },
    Http(HttpRequestView),
    Tx { control: u32, data: Seq<u8> },
    Warn(Seq<char>),
    BorrowedScenes { scenes: Seq<BorrowedSceneSnapshotView> },
}

impl View for HostCall {
    type V = HostCallView;

    open spec fn view(&self) -> HostCallView {
        match self {
            HostCall::Notify { proxy, name, args } => HostCallView::Notify {
                proxy: *proxy,
                name: name@,
                args: args@,
            },
            HostCall::NotifyConverted { proxy, name, key, conversion, raw } => {
                HostCallView::NotifyConverted {
                    proxy: *proxy,
                    name: name@,
                    key: key@,
                    conversion: *conversion,
                    raw: raw@,
                }
            },
            HostCall::SetState { proxy, key, value } => HostCallView::SetState {
                proxy: *proxy,
                key: key@,
                value: value@,
            },
            HostCall::Http(x) => HostCallView::Http(x@),
            HostCall::Tx { control, data } => HostCallView::Tx {
                control: *control,
                data: data@,
            },
            HostCall::Warn(x) => HostCallView::Warn(x@),
            HostCall::BorrowedScenes { scenes } => HostCallView::BorrowedScenes {
                scenes: text::views(scenes@),
            },
        }
    }
}

/// A device that could be adopted.
#[derive(Debug, PartialEq)]
pub struct Candidate {
    pub label: String,
    pub kind: String,
    pub driver_id: String,
    pub properties: Object,
    pub verified: String,
    pub room: String,
}

/// The view of [`Candidate`].
pub struct CandidateView {
    pub label: Seq<char>,
    pub kind: Seq<char>,
    pub driver_id: Seq<char>,
    pub properties: Members,
    pub verified: Seq<char>,
    pub room: Seq<char>,
}

impl View for Candidate {
    type V = CandidateView;

    open spec fn view(&self) -> CandidateView {
        CandidateView {
            label: self.label@,
            kind: self.kind@,
            driver_id: self.driver_id@,
            properties: self.properties@,
            verified: self.verified@,
            room: self.room@,
        }
    }
}

/// One field of a form.
#[derive(Debug, PartialEq)]
pub struct Field {
    pub name: String,
    pub label: String,
    pub kind: String,
    pub help: String,
    pub default: Option<Json>,
    pub options: Vec<String>,
    pub required: bool,
}

/// The view of [`Field`].
pub struct FieldView {
    pub name: Seq<char>,
    pub label: Seq<char>,
    pub kind: Seq<char>,
    pub help: Seq<char>,
    pub default: Option<JView>,
    pub options: Seq<Seq<char>>,
    pub required: bool,
}

impl View for Field {
    type V = FieldView;

    open spec fn view(&self) -> FieldView {
        FieldView {
            name: self.name@,
            label: self.label@,
            kind: self.kind@,
            help: self.help@,
            default: text::view_of(self.default),
            options: text::views(self.options@),
            required: self.required,
        }
    }
}

/// One row of a table to pick from.
#[derive(Debug, PartialEq)]
pub struct PickRow {
    pub value: String,
    pub cells: Vec<String>,
    pub note: String,
}

/// The view of [`PickRow`].
pub struct PickRowView {
    pub value: Seq<char>,
    pub cells: Seq<Seq<char>>,
    pub note: Seq<char>,
}

impl View for PickRow {
    type V = PickRowView;

    open spec fn view(&self) -> PickRowView {
        PickRowView {
            value: self.value@,
            cells: text::views(self.cells@),
            note: self.note@,
        }
    }
}

/// What a rule or a scene does.
#[derive(Debug, PartialEq)]
pub enum ImportedAction {
    /// A command to everything in a room.
    Room { room: String, command: String, args: Object },
    /// A command to one of the devices offered with it.
    Device { device: usize, proxy: u32, command: String, args: Object },
}

/// The view of [`ImportedAction`].
pub enum ImportedActionView {
    Room { room: Seq<char>, command: Seq<char>, args: Members },
    Device { device: usize, proxy: u32, command: Seq<char>, args: Members },
}

impl View for ImportedAction {
    type V = ImportedActionView;

    open spec fn view(&self) -> ImportedActionView {
        match self {
            ImportedAction::Room { room, command, args } => ImportedActionView::Room {
                room: room@,
                command: command@,
                args: args@,
            },
            ImportedAction::Device { device, proxy, command, args } => ImportedActionView::Device {
                device: *device,
                proxy: *proxy,
                command: command@,
                args: args@,
            },
        }
    }
}

/// A rule that the bridge already has, as a proposal.
#[derive(Debug, PartialEq)]
pub struct ImportedRule {
    pub label: String,
    pub when_device: usize,
    pub when_proxy: u32,
    pub when_key: String,
    pub when_becomes: Option<Json>,
    pub when_params: Object,
    pub when_events: Vec<String>,
    pub actions: Vec<ImportedAction>,
}

/// The view of [`ImportedRule`].
pub struct ImportedRuleView {
    pub label: Seq<char>,
    pub when_device: usize,
    pub when_proxy: u32,
    pub when_key: Seq<char>,
    pub when_becomes: Option<JView>,
    pub when_params: Members,
    pub when_events: Seq<Seq<char>>,
    pub actions: Seq<ImportedActionView>,
}

impl View for ImportedRule {
    type V = ImportedRuleView;

    open spec fn view(&self) -> ImportedRuleView {
        ImportedRuleView {
            label: self.label@,
            when_device: self.when_device,
            when_proxy: self.when_proxy,
            when_key: self.when_key@,
            when_becomes: text::view_of(self.when_becomes),
            when_params: self.when_params@,
            when_events: text::views(self.when_events@),
            actions: text::views(self.actions@),
        }
    }
}

/// Where on the bridge a scene came from.
#[derive(Debug, PartialEq)]
pub struct ImportedSceneResource {
    pub resource: String,
    pub dynamic_palette: bool,
}

/// The view of [`ImportedSceneResource`].
pub struct ImportedSceneResourceView {
    pub resource: Seq<char>,
    pub dynamic_palette: bool,
}

impl View for ImportedSceneResource {
    type V = ImportedSceneResourceView;

    open spec fn view(&self) -> ImportedSceneResourceView {
        ImportedSceneResourceView {
            resource: self.resource@,
            dynamic_palette: self.dynamic_palette,
        }
    }
}

/// A scene that the bridge already has, as a proposal.
#[derive(Debug, PartialEq)]
pub struct ImportedScene {
    pub title: String,
    pub rooms: Vec<String>,
    pub steps: Vec<ImportedAction>,
    pub native: Option<ImportedSceneResource>,
}

/// The view of [`ImportedScene`].
pub struct ImportedSceneView {
    pub title: Seq<char>,
    pub rooms: Seq<Seq<char>>,
    pub steps: Seq<ImportedActionView>,
    pub native: Option<ImportedSceneResourceView>,
}

impl View for ImportedScene {
    type V = ImportedSceneView;

    open spec fn view(&self) -> ImportedSceneView {
        ImportedSceneView {
            title: self.title@,
            rooms: text::views(self.rooms@),
            steps: text::views(self.steps@),
            native: text::view_of(self.native),
        }
    }
}

/// What setting a bridge up asks for next.
#[derive(Debug, PartialEq)]
pub enum SetupStep {
    /// Fill in a form.
    Form { title: String, body: String, fields: Vec<Field> },
    /// Pick a row of a table, or type the answer.
    Pick {
        title: String,
        body: String,
        columns: Vec<String>,
        rows: Vec<PickRow>,
        field: String,
        manual: Option<Field>,
    },
    /// Send a request and come back with the answer.
    Fetch { request: HttpRequest, note: String },
    /// Ask somebody to do something.
    Instruct { title: String, body: String, continue_label: String },
    /// Wait, then try again.
    Wait { title: String, body: String, retry_ms: u64 },
    /// Choose what to adopt.
    Choose { title: String, body: String, options: Vec<Candidate>, multiple: bool },
    /// Adopt these.
    Done {
        devices: Vec<Candidate>,
        rules: Vec<ImportedRule>,
        scenes: Vec<ImportedScene>,
    },
    /// Give up.
    Failed { reason: String },
}

/// The view of [`SetupStep`].
pub enum SetupStepView {
    Form { title: Seq<char>, body: Seq<char>, fields: Seq<FieldView> },
    Pick {
        title: Seq<char>,
        body: Seq<char>,
        columns: Seq<Seq<char>>,
        rows: Seq<PickRowView>,
        field: Seq<char>,
        manual: Option<FieldView>,
    },
    Fetch { request: HttpRequestView, note: Seq<char> },
    Instruct { title: Seq<char>, body: Seq<char>, continue_label: Seq<char> },
    Wait { title: Seq<char>, body: Seq<char>, retry_ms: u64 },
    Choose { title: Seq<char>, body: Seq<char>, options: Seq<CandidateView>, multiple: bool },
    Done {
        devices: Seq<CandidateView>,
        rules: Seq<ImportedRuleView>,
        scenes: Seq<ImportedSceneView>,
    },
    Failed { reason: Seq<char> },
}

impl View for SetupStep {
    type V = SetupStepView;

    open spec fn view(&self) -> SetupStepView {
        match self {
            SetupStep::Form { title, body, fields } => SetupStepView::Form {
                title: title@,
                body: body@,
                fields: text::views(fields@),
            },
            SetupStep::Pick { title, body, columns, rows, field, manual } => SetupStepView::Pick {
                title: title@,
                body: body@,
                columns: text::views(columns@),
                rows: text::views(rows@),
                field: field@,
                manual: text::view_of(*manual),
            },
            SetupStep::Fetch { request, note } => SetupStepView::Fetch {
                request: request@,
                note: note@,
            },
            SetupStep::Instruct { title, body, continue_label } => SetupStepView::Instruct {
                title: title@,
                body: body@,
                continue_label: continue_label@,
            },
            SetupStep::Wait { title, body, retry_ms } => SetupStepView::Wait {
                title: title@,
                body: body@,
                retry_ms: *retry_ms,
            },
            SetupStep::Choose { title, body, options, multiple } => SetupStepView::Choose {
                title: title@,
                body: body@,
                options: text::views(options@),
                multiple: *multiple,
            },
            SetupStep::Done { devices, rules, scenes } => SetupStepView::Done {
                devices: text::views(devices@),
                rules: text::views(rules@),
                scenes: text::views(scenes@),
            },
            SetupStep::Failed { reason } => SetupStepView::Failed {
                reason: reason@,
            },
        }
    }
}

/// One command of a scene to one light. `x` and `y` are the gamut point of the command's hue and
/// saturation.
#[derive(Debug, PartialEq)]
pub struct SceneAction {
    pub command: String,
    pub args: Object,
    pub x: Number,
    pub y: Number,
}

/// The view of [`SceneAction`].
pub struct SceneActionView {
    pub command: Seq<char>,
    pub args: Members,
    pub x: NumberView,
    pub y: NumberView,
}

impl View for SceneAction {
    type V = SceneActionView;

    open spec fn view(&self) -> SceneActionView {
        SceneActionView {
            command: self.command@,
            args: self.args@,
            x: self.x@,
            y: self.y@,
        }
    }
}

/// One light of a scene.
#[derive(Debug, PartialEq)]
pub struct SceneMember {
    pub device: u32,
    pub proxy: u32,
    pub instance: Instance,
    pub actions: Vec<SceneAction>,
}

/// The view of [`SceneMember`].
pub struct SceneMemberView {
    pub device: u32,
    pub proxy: u32,
    pub instance: InstanceView,
    pub actions: Seq<SceneActionView>,
}

impl View for SceneMember {
    type V = SceneMemberView;

    open spec fn view(&self) -> SceneMemberView {
        SceneMemberView {
            device: self.device,
            proxy: self.proxy,
            instance: self.instance@,
            actions: text::views(self.actions@),
        }
    }
}

/// One colour of a palette.
#[derive(Debug, PartialEq)]
pub struct ScenePaletteColor {
    pub x: Number,
    pub y: Number,
    pub brightness: Option<Number>,
}

/// The view of [`ScenePaletteColor`].
pub struct ScenePaletteColorView {
    pub x: NumberView,
    pub y: NumberView,
    pub brightness: Option<NumberView>,
}

impl View for ScenePaletteColor {
    type V = ScenePaletteColorView;

    open spec fn view(&self) -> ScenePaletteColorView {
        ScenePaletteColorView {
            x: self.x@,
            y: self.y@,
            brightness: text::view_of(self.brightness),
        }
    }
}

/// An effect that one light of a scene plays.
#[derive(Debug, PartialEq)]
pub struct SceneEffect {
    pub device: u32,
    pub effect: String,
}

/// The view of [`SceneEffect`].
pub struct SceneEffectView {
    pub device: u32,
    pub effect: Seq<char>,
}

impl View for SceneEffect {
    type V = SceneEffectView;

    open spec fn view(&self) -> SceneEffectView {
        SceneEffectView {
            device: self.device,
            effect: self.effect@,
        }
    }
}

/// How a scene moves.
#[derive(Debug, PartialEq)]
pub struct SceneAnimation {
    pub enabled: bool,
    pub palette: Vec<ScenePaletteColor>,
    pub speed: Option<Number>,
    pub auto_dynamic: bool,
    pub effects: Vec<SceneEffect>,
}

/// The view of [`SceneAnimation`].
pub struct SceneAnimationView {
    pub enabled: bool,
    pub palette: Seq<ScenePaletteColorView>,
    pub speed: Option<NumberView>,
    pub auto_dynamic: bool,
    pub effects: Seq<SceneEffectView>,
}

impl View for SceneAnimation {
    type V = SceneAnimationView;

    open spec fn view(&self) -> SceneAnimationView {
        SceneAnimationView {
            enabled: self.enabled,
            palette: text::views(self.palette@),
            speed: text::view_of(self.speed),
            auto_dynamic: self.auto_dynamic,
            effects: text::views(self.effects@),
        }
    }
}

/// What is asked of a scene.
#[derive(Debug, PartialEq)]
pub struct SceneRequest {
    pub scene: u32,
    pub name: String,
    pub ownership: SceneOwnership,
    pub resource: Option<String>,
    pub members: Vec<SceneMember>,
    pub animation: SceneAnimation,
    pub operation: SceneOperation,
}

/// The view of [`SceneRequest`].
pub struct SceneRequestView {
    pub scene: u32,
    pub name: Seq<char>,
    pub ownership: SceneOwnership,
    pub resource: Option<Seq<char>>,
    pub members: Seq<SceneMemberView>,
    pub animation: SceneAnimationView,
    pub operation: SceneOperation,
}

impl View for SceneRequest {
    type V = SceneRequestView;

    open spec fn view(&self) -> SceneRequestView {
        SceneRequestView {
            scene: self.scene,
            name: self.name@,
            ownership: self.ownership,
            resource: text::view_of(self.resource),
            members: text::views(self.members@),
            animation: self.animation@,
            operation: self.operation,
        }
    }
}

/// What became of it.
#[derive(Debug, PartialEq)]
pub struct SceneResponse {
    pub disposition: GroupDisposition,
    pub problem: Option<String>,
    pub status: Json,
    pub calls: Vec<HostCall>,
}

/// The view of [`SceneResponse`].
pub struct SceneResponseView {
    pub disposition: GroupDisposition,
    pub problem: Option<Seq<char>>,
    pub status: JView,
    pub calls: Seq<HostCallView>,
}

impl View for SceneResponse {
    type V = SceneResponseView;

    open spec fn view(&self) -> SceneResponseView {
        SceneResponseView {
            disposition: self.disposition,
            problem: text::view_of(self.problem),
            status: self.status@,
            calls: text::views(self.calls@),
        }
    }
}

/// The property of a device, where it is text.
pub open spec fn property(inst: InstanceView, name: Seq<char>) -> Option<Seq<char>> {
    json::as_str(json::lookup(inst.properties, name))
}

/// Whether a device has a property that is text and not empty.
pub open spec fn has_property(inst: InstanceView, name: Seq<char>) -> bool {
    match property(inst, name) {
        Some(s) => s.len() > 0,
        None => false,
    }
}

/// What a device remembers under a key.
pub open spec fn remembered(inst: InstanceView, key: Seq<char>) -> Option<JView> {
    json::lookup(inst.scratch, key)
}

/// A device that remembers one thing more.
pub open spec fn remember(inst: InstanceView, key: Seq<char>, value: JView) -> InstanceView {
    InstanceView { properties: inst.properties, scratch: json::put(inst.scratch, key, value) }
}

/// A device that has forgotten a key.
pub open spec fn forget(inst: InstanceView, key: Seq<char>) -> InstanceView {
    InstanceView { properties: inst.properties, scratch: json::without(inst.scratch, key) }
}

impl Instance {
    /// A device without properties that remembers nothing.
    pub fn new() -> (r: Self)
        ensures
            r@ == (InstanceView { properties: Members::empty(), scratch: Members::empty() }),
    {
        Instance { properties: Object::new(), scratch: Object::new() }
    }

    /// The property of a device, where it is text.
    pub fn property(&self, name: &str) -> (r: Option<&str>)
        ensures
            text::view_of(r) == property(self@, name@),
    {
        json::str_of(self.properties.get(name))
    }

    /// Whether a device has a property that is text and not empty.
    pub fn has(&self, name: &str) -> (r: bool)
        ensures
            r == has_property(self@, name@),
    {
        match self.property(name) {
            Some(s) => !s.is_empty(),
            None => false,
        }
    }

    /// Remembers a value.
    pub fn remember(&mut self, key: &str, value: Json)
        ensures
            final(self)@ == remember(old(self)@, key@, value@),
    {
        self.scratch.insert(key, value);
    }

    /// Forgets a value.
    pub fn forget(&mut self, key: &str)
        ensures
            final(self)@ == forget(old(self)@, key@),
    {
        self.scratch.remove(key);
    }
}

impl HttpRequest {
    /// A request without headers or body.
    pub fn new(method: &str, url: String) -> (r: Self)
        ensures
            r@ == request(method@, url@),
    {
        let r = HttpRequest { method: method.to_string(), url, headers: Vec::new(), body: None };
        assert(r@.headers =~= seq![]);
        r
    }

    /// This request with one header more.
    pub fn header(self, name: &str, value: &str) -> (r: Self)
        ensures
            r@ == with_header(self@, name@, value@),
    {
        broadcast use text::views_push;

        let mut r = self;
        r.headers.push((name.to_string(), value.to_string()));
        r
    }

    /// This request with a JSON body.
    pub fn json(self, body: String) -> (r: Self)
        ensures
            r@ == with_body(self@, body@),
    {
        let mut r = self;
        r.body = Some(body);
        r
    }
}

/// A request without headers or body.
pub open spec fn request(method: Seq<char>, url: Seq<char>) -> HttpRequestView {
    HttpRequestView { method, url, headers: seq![], body: None }
}

/// A request with one header more.
pub open spec fn with_header(
    request: HttpRequestView,
    name: Seq<char>,
    value: Seq<char>,
) -> HttpRequestView {
    HttpRequestView { headers: request.headers.push((name, value)), ..request }
}

/// A request with a JSON body.
pub open spec fn with_body(request: HttpRequestView, body: Seq<char>) -> HttpRequestView {
    HttpRequestView { body: Some(body), ..request }
}

/// A report that something changed on a binding.
pub open spec fn notification(proxy: u32, name: Seq<char>, args: Members) -> HostCallView {
    HostCallView::Notify { proxy, name, args }
}

impl HostCall {
    /// A report that something changed on a binding.
    pub fn notify(proxy: u32, name: &str, args: Object) -> (r: Self)
        ensures
            r@ == notification(proxy, name@, args@),
    {
        HostCall::Notify { proxy, name: name.to_string(), args }
    }
}

/// No calls.
pub fn no_calls() -> (r: Vec<HostCall>)
    ensures
        text::views(r@) == Seq::<HostCallView>::empty(),
{
    let r: Vec<HostCall> = Vec::new();
    assert(text::views(r@) =~= Seq::<HostCallView>::empty());
    r
}

/// One call.
pub fn one_call(call: HostCall) -> (r: Vec<HostCall>)
    ensures
        text::views(r@) == seq![call@],
{
    let mut r: Vec<HostCall> = Vec::new();
    r.push(call);
    assert(text::views(r@) =~= seq![call@]);
    r
}

/// The calls that an optional call comes to.
pub open spec fn call_list(call: Option<HostCallView>) -> Seq<HostCallView> {
    match call {
        Some(c) => seq![c],
        None => seq![],
    }
}

/// The calls that an optional call comes to.
pub fn list_call(call: Option<HostCall>) -> (r: Vec<HostCall>)
    ensures
        text::views(r@) == call_list(text::view_of(call)),
{
    match call {
        Some(c) => one_call(c),
        None => no_calls(),
    }
}

} // verus!
