//! What the robot's services say to each other and to their clients: JSON-RPC 2.0, one object
//! per line.
//!
//! Payloads this library never looks into stay `serde_json` values. Floats on the wire are
//! held by the bits of their double.
use vstd::prelude::*;

use crate::method;
use crate::text;
use crate::version::Version;

verus! {

pub const JSONRPC_VERSION: &'static str = "2.0";

/// Bumped on any incompatible change.
pub const API_VERSION: u32 = 2;

/// Where `updaterd` listens.
pub const DEFAULT_SOCKET: &'static str = "/run/updaterd.sock";

/// A JSON value, opaque here.
#[verifier::external_type_specification]
#[verifier::external_body]
pub struct ExValue(serde_json::Value);

/// Request identifier.
#[derive(Debug, PartialEq, Eq)]
pub enum Id {
    Number(u64),
    Text(String),
}

impl Clone for Id {
    fn clone(&self) -> (r: Self)
        ensures
            r == *self,
    {
        match self {
            Id::Number(n) => Id::Number(*n),
            Id::Text(s) => Id::Text(s.clone()),
        }
    }
}

/// What an identifier says: a number, or a text.
pub enum IdView {
    Number(u64),
    Text(Seq<char>),
}

impl View for Id {
    type V = IdView;

    open spec fn view(&self) -> IdView {
        match *self {
            Id::Number(n) => IdView::Number(n),
            Id::Text(s) => IdView::Text(s@),
        }
    }
}

impl Id {
    /// The same identifier?
    pub fn is(&self, other: &Id) -> (r: bool)
        ensures
            r == (self@ == other@),
    {
        match (self, other) {
            (Id::Number(a), Id::Number(b)) => *a == *b,
            (Id::Text(a), Id::Text(b)) => *a == *b,
            _ => false,
        }
    }
}

/// A call, or without an `id` a notification.
#[derive(Debug, PartialEq, Eq)]
pub struct Request {
    pub jsonrpc: String,
    /// Absent for notifications.
    pub id: Option<Id>,
    pub method: String,
    pub params: Option<serde_json::Value>,
}

impl Request {
    /// A call that expects an answer.
    pub fn new(id: Id, method: &str, params: serde_json::Value) -> (r: Self)
        ensures
            r.jsonrpc@ == JSONRPC_VERSION@,
            r.id == Some(id),
            r.method@ == method@,
            r.params == Some(params),
    {
        Request {
            jsonrpc: JSONRPC_VERSION.to_owned(),
            id: Some(id),
            method: method.to_owned(),
            params: Some(params),
        }
    }

    /// No `id`, so no response is expected.
    pub fn notification(method: &str, params: serde_json::Value) -> (r: Self)
        ensures
            r.jsonrpc@ == JSONRPC_VERSION@,
            r.id is None,
            r.method@ == method@,
            r.params == Some(params),
    {
        Request {
            jsonrpc: JSONRPC_VERSION.to_owned(),
            id: None,
            method: method.to_owned(),
            params: Some(params),
        }
    }

    pub fn is_notification(&self) -> (r: bool)
        ensures
            r == (self.id is None),
    {
        self.id.is_none()
    }
}

/// The answer to a request.
#[derive(Debug, PartialEq, Eq)]
pub struct Response {
    pub jsonrpc: String,
    /// `None` when the request could not be parsed well enough to recover an id.
    pub id: Option<Id>,
    pub result: Option<serde_json::Value>,
    pub error: Option<Error>,
}

impl Response {
    pub fn ok(id: Option<Id>, result: serde_json::Value) -> (r: Self)
        ensures
            r.jsonrpc@ == JSONRPC_VERSION@,
            r.id == id,
            r.result == Some(result),
            r.error is None,
    {
        Response { jsonrpc: JSONRPC_VERSION.to_owned(), id, result: Some(result), error: None }
    }

    pub fn err(id: Option<Id>, error: Error) -> (r: Self)
        ensures
            r.jsonrpc@ == JSONRPC_VERSION@,
            r.id == id,
            r.result is None,
            r.error == Some(error),
    {
        Response { jsonrpc: JSONRPC_VERSION.to_owned(), id, result: None, error: Some(error) }
    }
}

/// What went wrong, for a program and for a person.
#[derive(Debug, PartialEq, Eq)]
pub struct Error {
    pub code: i32,
    /// Displayable, and specific enough to diagnose from.
    pub message: String,
    pub data: Option<serde_json::Value>,
}

/// An error on one line.
pub open spec fn error_text(code: int, message: Seq<char>) -> Seq<char> {
    "["@ + text::signed_dec(code) + "] "@ + message
}

impl Error {
    pub fn new(code: i32, message: String) -> (r: Self)
        ensures
            r.code == code,
            r.message == message,
            r.data is None,
    {
        Error { code, message, data: None }
    }

    /// The code and the message.
    pub fn to_string(&self) -> (r: String)
        ensures
            r@ == error_text(self.code as int, self.message@),
    {
        let mut out = "[".to_owned();
        out.append(text::signed_decimal(self.code as i64).as_str());
        out.append("] ");
        out.append(self.message.as_str());
        out
    }
}

// ── params and results ───────────────────────────────────────────────────────

/// Name of a component as configured: `daemon`, `model`.
#[derive(Debug, PartialEq, Eq, PartialOrd, Ord, Hash)]
pub struct ComponentId(pub String);

impl Clone for ComponentId {
    fn clone(&self) -> (r: Self)
        ensures
            r == *self,
    {
        ComponentId(self.0.clone())
    }
}

impl View for ComponentId {
    type V = Seq<char>;

    open spec fn view(&self) -> Seq<char> {
        self.0@
    }
}

impl ComponentId {
    pub fn new(s: &str) -> (r: Self)
        ensures
            r@ == s@,
    {
        ComponentId(s.to_owned())
    }

    pub fn as_str(&self) -> (r: &str)
        ensures
            r@ == self@,
    {
        self.0.as_str()
    }
}

#[derive(Debug, Clone, Copy, PartialEq, Eq, Structural)]
pub struct HelloParams {
    pub api_version: u32,
}

#[derive(Debug, PartialEq, Eq)]
pub struct HelloResult {
    pub api_version: u32,
    pub daemon_version: Option<Version>,
    /// Source revision of the running binary, `None` for a build that did not come from CI.
    pub revision: Option<String>,
}

/// What an apply should move to.
#[derive(Debug, PartialEq, Eq)]
pub enum Target {
    /// Whatever the source advertises as newest.
    Latest,
    /// An exact version.
    Exact(Version),
    /// What a branch last built.
    Ref(String),
}

#[derive(Debug, Clone, Copy, PartialEq, Eq, Structural)]
pub struct ApplyOptions {
    /// Run every check and stop before the swap.
    pub dry_run: bool,
    /// Skip only the check for an active remote session.
    pub interrupt_sessions: bool,
}

impl Default for ApplyOptions {
    fn default() -> (r: Self)
        ensures
            !r.dry_run,
            !r.interrupt_sessions,
    {
        ApplyOptions { dry_run: false, interrupt_sessions: false }
    }
}

#[derive(Debug, PartialEq, Eq)]
pub struct ComponentParams {
    pub component: ComponentId,
}

#[derive(Debug, PartialEq, Eq)]
pub struct ApplyParams {
    pub component: ComponentId,
    pub target: Target,
    pub options: ApplyOptions,
}

#[derive(Debug, PartialEq, Eq)]
pub struct SelectParams {
    pub component: ComponentId,
    pub version: Version,
}

#[derive(Debug, PartialEq, Eq)]
pub struct PinParams {
    pub component: ComponentId,
    /// `None` unpins.
    pub version: Option<Version>,
}

#[derive(Debug, Clone, Copy, PartialEq, Eq, Structural)]
pub struct LogParams {
    pub limit: usize,
}

/// Where an update in flight has got to.
#[derive(Debug, Clone, Copy, PartialEq, Eq, Structural)]
pub enum Phase {
    Idle,
    Preflight,
    Checking,
    Downloading,
    Verifying,
    Extracting,
    RunningPreHook,
    Swapping,
    RunningPostHook,
    Applying,
    HealthGate,
    Committing,
    RollingBack,
}

/// The name of a phase.
pub open spec fn phase_name(p: Phase) -> Seq<char> {
    match p {
        Phase::Idle => "Idle"@,
        Phase::Preflight => "Preflight"@,
        Phase::Checking => "Checking"@,
        Phase::Downloading => "Downloading"@,
        Phase::Verifying => "Verifying"@,
        Phase::Extracting => "Extracting"@,
        Phase::RunningPreHook => "RunningPreHook"@,
        Phase::Swapping => "Swapping"@,
        Phase::RunningPostHook => "RunningPostHook"@,
        Phase::Applying => "Applying"@,
        Phase::HealthGate => "HealthGate"@,
        Phase::Committing => "Committing"@,
        Phase::RollingBack => "RollingBack"@,
    }
}

impl Phase {
    /// The name a person reads.
    pub fn name(self) -> (r: &'static str)
        ensures
            r@ == phase_name(self),
    {
        match self {
            Phase::Idle => "Idle",
            Phase::Preflight => "Preflight",
            Phase::Checking => "Checking",
            Phase::Downloading => "Downloading",
            Phase::Verifying => "Verifying",
            Phase::Extracting => "Extracting",
            Phase::RunningPreHook => "RunningPreHook",
            Phase::Swapping => "Swapping",
            Phase::RunningPostHook => "RunningPostHook",
            Phase::Applying => "Applying",
            Phase::HealthGate => "HealthGate",
            Phase::Committing => "Committing",
            Phase::RollingBack => "RollingBack",
        }
    }
}

/// Payload of a progress notification.
#[derive(Debug, PartialEq, Eq)]
pub struct Progress {
    pub component: ComponentId,
    pub phase: Phase,
    /// 0-100 where meaningful, `None` otherwise.
    pub percent: Option<u8>,
    pub detail: Option<String>,
}

#[derive(Debug, PartialEq, Eq)]
pub struct ComponentStatus {
    pub component: ComponentId,
    pub installed: Option<Version>,
    pub phase: Phase,
    /// `None` when no health probe is configured.
    pub healthy: Option<bool>,
    pub pinned: Option<Version>,
    pub last_attempt: Option<LogEntry>,
}

#[derive(Debug, PartialEq, Eq)]
pub struct InstalledRelease {
    pub version: Version,
    pub active: bool,
    pub golden: bool,
    /// Git SHA of the build.
    pub source_revision: Option<String>,
}

#[allow(inconsistent_fields)]
#[derive(Debug, PartialEq, Eq)]
pub enum CheckResult {
    UpToDate { installed: Version },
    Available {
        installed: Option<Version>,
        candidate: Version,
        /// This update is not optional.
        mandatory: bool,
        changelog: Option<String>,
    },
    /// A newer version exists but cannot be installed here.
    Incompatible { candidate: Version, reason: String },
}

/// Result of an apply, a rollback or a select.
#[derive(Debug, PartialEq, Eq)]
pub enum ApplyResult {
    Applied { from: Option<Version>, to: Version },
    AlreadyCurrent { version: Version },
    /// Everything verified; stopped before the swap as asked.
    DryRunPassed { candidate: Version },
    /// Applied, failed its gate, reverted.
    RolledBack { attempted: Version, reverted_to: Option<Version>, reason: String },
    /// Failed its gate with nowhere to revert to.
    Stuck { version: Version, reason: String },
}

#[derive(Debug, PartialEq, Eq)]
pub struct LogEntry {
    /// Unix seconds.
    pub at: i64,
    pub component: ComponentId,
    pub from: Option<Version>,
    pub to: Option<Version>,
    pub outcome: Outcome,
}

#[derive(Debug, PartialEq, Eq)]
pub enum Outcome {
    Success,
    RolledBack { reason: String },
    /// Refused before anything changed.
    Aborted { reason: String },
}

#[derive(Debug, PartialEq, Eq)]
pub struct SafeToRestartResult {
    pub safe: bool,
    /// Why not, when it is not safe.
    pub reason: Option<String>,
}

#[derive(Debug, PartialEq, Eq)]
pub struct HealthResult {
    pub healthy: bool,
    pub reason: Option<String>,
}

#[derive(Debug, Clone, Copy, PartialEq, Eq, Structural)]
pub struct ModelApiResult {
    pub model_api: u32,
}

#[derive(Debug, Clone, Copy, PartialEq, Eq, Structural)]
pub struct SessionActiveResult {
    pub active: bool,
}

// ── wifi ─────────────────────────────────────────────────────────────────────

#[derive(Debug, Clone, Copy, PartialEq, Eq, Structural)]
pub enum Security {
    Open,
    WpaPsk,
    /// 802.1X.
    Enterprise,
}

#[derive(Debug, PartialEq, Eq)]
pub struct Network {
    pub ssid: String,
    /// Percent.
    pub signal: u8,
    pub security: Security,
    pub saved: bool,
}

impl Clone for Network {
    fn clone(&self) -> (r: Self)
        ensures
            r == *self,
    {
        Network {
            ssid: self.ssid.clone(),
            signal: self.signal,
            security: self.security,
            saved: self.saved,
        }
    }
}

#[derive(Debug, Clone, Copy, PartialEq, Eq, Structural)]
pub enum NetState {
    Connected,
    Disconnected,
    /// No wifi device is managed.
    Unavailable,
}

#[derive(Debug, PartialEq, Eq)]
pub struct NetStatusResult {
    pub state: NetState,
    pub ssid: Option<String>,
    pub signal: Option<u8>,
    pub ip4: Option<String>,
    pub ip6: Option<String>,
    pub mac: Option<String>,
    pub iface: Option<String>,
}

#[derive(Debug, PartialEq, Eq)]
pub struct NetScanResult {
    pub networks: Vec<Network>,
}

#[derive(Debug, PartialEq, Eq)]
pub struct NetConnectParams {
    pub ssid: String,
    pub psk: Option<String>,
}

#[derive(Debug, PartialEq, Eq)]
pub struct NetForgetParams {
    pub ssid: String,
}

#[derive(Debug, Clone, Copy, PartialEq, Eq, Structural)]
pub enum ConnectFailure {
    BadKey,
    NotFound,
    Timeout,
    Unsupported,
    Other,
}

#[derive(Debug, PartialEq, Eq)]
pub enum ConnectResult {
    Connected { ssid: String, ip4: Option<String> },
    Failed { reason: ConnectFailure, detail: Option<String> },
}

#[derive(Debug, Clone, Copy, PartialEq, Eq, Structural)]
pub struct ForgetResult {
    pub removed: bool,
}

// ── the system ───────────────────────────────────────────────────────────────

#[derive(Debug, PartialEq, Eq)]
pub struct SystemInfoResult {
    pub name: String,
    pub serial: Option<String>,
    pub uptime_seconds: u64,
}

#[derive(Debug, PartialEq, Eq)]
pub struct SetNameParams {
    pub name: String,
}

#[derive(Debug, PartialEq, Eq)]
pub struct SetNameResult {
    pub name: String,
}

#[derive(Debug, PartialEq, Eq)]
pub struct AuthenticateParams {
    pub pin: String,
}

#[derive(Debug, PartialEq, Eq)]
pub struct SetPairingPinParams {
    pub pin: String,
}

#[derive(Debug, PartialEq, Eq)]
pub struct PairingPinResult {
    pub pin: String,
    pub is_default: bool,
}

#[derive(Debug, Clone, Copy, PartialEq, Eq, Structural)]
pub struct RebootResult {
    pub in_seconds: u64,
}

/// What the service manager says of one unit.
#[derive(Debug, Clone, Copy, PartialEq, Eq, Structural)]
pub enum UnitState {
    Active,
    Inactive,
    /// No such unit.
    Absent,
    Unknown,
}

#[derive(Debug, PartialEq, Eq)]
pub struct ServiceUnit {
    pub unit: String,
    pub state: UnitState,
    /// The release the running binary belongs to.
    pub release: Option<Version>,
    /// The path the running process was executed from.
    pub binary: Option<String>,
    /// That binary is gone from disk.
    pub deleted: bool,
}

// ── the gamepad and the motors ───────────────────────────────────────────────

#[derive(Debug, PartialEq, Eq)]
pub struct PadPairParams {
    /// Whatever the client asked for, as it came.
    pub options: Option<serde_json::Value>,
}

impl Default for PadPairParams {
    fn default() -> (r: Self)
        ensures
            r.options is None,
    {
        PadPairParams { options: None }
    }
}

#[derive(Debug, PartialEq, Eq)]
pub struct PadForgetParams {
    pub mac: String,
}

/// A velocity twist, by the bits of its doubles.
#[derive(Debug, Clone, Copy, PartialEq, Eq, Structural)]
pub struct MoveParams {
    pub vx: u64,
    pub vy: u64,
    pub vyaw: u64,
}

/// Head angles, by the bits of their doubles.
#[derive(Debug, Clone, Copy, PartialEq, Eq, Structural)]
pub struct HeadParams {
    pub neck_pitch: u64,
    pub head_pitch: u64,
    pub head_yaw: u64,
    pub head_roll: u64,
}

#[derive(Debug, Clone, Copy, PartialEq, Eq, Structural)]
pub struct EnableParams {
    pub on: bool,
    pub toggle: bool,
}

#[derive(Debug, Clone, Copy, PartialEq, Eq, Structural)]
pub struct SubscribeParams {
    pub hz: Option<u32>,
}

// ── calls ────────────────────────────────────────────────────────────────────

/// Everything a client can ask of the robot.
#[derive(Debug, PartialEq, Eq)]
pub enum Call {
    Hello(HelloParams),
    Check(ComponentParams),
    Apply(ApplyParams),
    Rollback(ComponentParams),
    ResetToGolden(ComponentParams),
    Select(SelectParams),
    Pin(PinParams),
    Status,
    ListInstalled(ComponentParams),
    Log(LogParams),
    Subscribe,
    RobotSafeToRestart,
    RobotHealth,
    RobotModelApi,
    RobotRemoteSessionActive,
    NetStatus,
    NetScan,
    NetConnect(NetConnectParams),
    NetForget(NetForgetParams),
    SystemInfo,
    SystemSetName(SetNameParams),
    SystemServices,
    SystemReboot,
    SystemAuthenticate(AuthenticateParams),
    SystemPairingPin,
    SystemSetPairingPin(SetPairingPinParams),
    PadStatus,
    PadPair(PadPairParams),
    PadForget(PadForgetParams),
    PadInput,
    RobotMove(MoveParams),
    RobotHead(HeadParams),
    RobotLook(serde_json::Value),
    RobotStop,
    RobotEnable(EnableParams),
    RobotDo(serde_json::Value),
    RobotPose(serde_json::Value),
    RobotMouth(serde_json::Value),
    RobotSound(serde_json::Value),
    RobotTheremin(serde_json::Value),
    RobotChorale(serde_json::Value),
    RobotShutdown,
    RobotMode,
    RobotInit,
    RobotRelax,
    RobotSubscribe(SubscribeParams),
    ChoraleSubscribe,
    ChoraleBeaconSet(serde_json::Value),
    ChoraleHeard(serde_json::Value),
    TofStream,
}

impl Call {
    /// The method that makes this call.
    pub open spec fn method_name(&self) -> Seq<char> {
        match *self {
            Call::Hello(_) => method::HELLO@,
            Call::Check(_) => method::CHECK@,
            Call::Apply(_) => method::APPLY@,
            Call::Rollback(_) => method::ROLLBACK@,
            Call::ResetToGolden(_) => method::RESET_TO_GOLDEN@,
            Call::Select(_) => method::SELECT@,
            Call::Pin(_) => method::PIN@,
            Call::Status => method::STATUS@,
            Call::ListInstalled(_) => method::LIST_INSTALLED@,
            Call::Log(_) => method::LOG@,
            Call::Subscribe => method::SUBSCRIBE@,
            Call::RobotSafeToRestart => method::ROBOT_SAFE_TO_RESTART@,
            Call::RobotHealth => method::ROBOT_HEALTH@,
            Call::RobotModelApi => method::ROBOT_MODEL_API@,
            Call::RobotRemoteSessionActive => method::ROBOT_SESSION_ACTIVE@,
            Call::NetStatus => method::NET_STATUS@,
            Call::NetScan => method::NET_SCAN@,
            Call::NetConnect(_) => method::NET_CONNECT@,
            Call::NetForget(_) => method::NET_FORGET@,
            Call::SystemInfo => method::SYSTEM_INFO@,
            Call::SystemSetName(_) => method::SYSTEM_SET_NAME@,
            Call::SystemServices => method::SYSTEM_SERVICES@,
            Call::SystemReboot => method::SYSTEM_REBOOT@,
            Call::SystemAuthenticate(_) => method::SYSTEM_AUTHENTICATE@,
            Call::SystemPairingPin => method::SYSTEM_PAIRING_PIN@,
            Call::SystemSetPairingPin(_) => method::SYSTEM_SET_PAIRING_PIN@,
            Call::PadStatus => method::PAD_STATUS@,
            Call::PadPair(_) => method::PAD_PAIR@,
            Call::PadForget(_) => method::PAD_FORGET@,
            Call::PadInput => method::PAD_INPUT@,
            Call::RobotMove(_) => method::ROBOT_MOVE@,
            Call::RobotHead(_) => method::ROBOT_HEAD@,
            Call::RobotLook(_) => method::ROBOT_LOOK@,
            Call::RobotStop => method::ROBOT_STOP@,
            Call::RobotEnable(_) => method::ROBOT_ENABLE@,
            Call::RobotDo(_) => method::ROBOT_DO@,
            Call::RobotPose(_) => method::ROBOT_POSE@,
            Call::RobotMouth(_) => method::ROBOT_MOUTH@,
            Call::RobotSound(_) => method::ROBOT_SOUND@,
            Call::RobotTheremin(_) => method::ROBOT_THEREMIN@,
            Call::RobotChorale(_) => method::ROBOT_CHORALE@,
            Call::RobotShutdown => method::ROBOT_SHUTDOWN@,
            Call::RobotMode => method::ROBOT_MODE@,
            Call::RobotInit => method::ROBOT_INIT@,
            Call::RobotRelax => method::ROBOT_RELAX@,
            Call::RobotSubscribe(_) => method::ROBOT_SUBSCRIBE@,
            Call::ChoraleSubscribe => method::CHORALE_SUBSCRIBE@,
            Call::ChoraleBeaconSet(_) => method::CHORALE_BEACON_SET@,
            Call::ChoraleHeard(_) => method::CHORALE_HEARD@,
            Call::TofStream => method::TOF_STREAM@,
        }
    }

    /// Does this call change the robot's software, networks, identity or pads?
    pub open spec fn mutates(&self) -> bool {
        ||| self is Apply
        ||| self is Rollback
        ||| self is ResetToGolden
        ||| self is Select
        ||| self is Pin
        ||| self is NetConnect
        ||| self is NetForget
        ||| self is SystemSetName
        ||| self is SystemReboot
        ||| self is SystemSetPairingPin
        ||| self is PadPair
        ||| self is PadForget
    }

    /// The method that makes this call.
    pub fn method(&self) -> (r: &'static str)
        ensures
            r@ == self.method_name(),
    {
        match self {
            Call::Hello(_) => method::HELLO,
            Call::Check(_) => method::CHECK,
            Call::Apply(_) => method::APPLY,
            Call::Rollback(_) => method::ROLLBACK,
            Call::ResetToGolden(_) => method::RESET_TO_GOLDEN,
            Call::Select(_) => method::SELECT,
            Call::Pin(_) => method::PIN,
            Call::Status => method::STATUS,
            Call::ListInstalled(_) => method::LIST_INSTALLED,
            Call::Log(_) => method::LOG,
            Call::Subscribe => method::SUBSCRIBE,
            Call::RobotSafeToRestart => method::ROBOT_SAFE_TO_RESTART,
            Call::RobotHealth => method::ROBOT_HEALTH,
            Call::RobotModelApi => method::ROBOT_MODEL_API,
            Call::RobotRemoteSessionActive => method::ROBOT_SESSION_ACTIVE,
            Call::NetStatus => method::NET_STATUS,
            Call::NetScan => method::NET_SCAN,
            Call::NetConnect(_) => method::NET_CONNECT,
            Call::NetForget(_) => method::NET_FORGET,
            Call::SystemInfo => method::SYSTEM_INFO,
            Call::SystemSetName(_) => method::SYSTEM_SET_NAME,
            Call::SystemServices => method::SYSTEM_SERVICES,
            Call::SystemReboot => method::SYSTEM_REBOOT,
            Call::SystemAuthenticate(_) => method::SYSTEM_AUTHENTICATE,
            Call::SystemPairingPin => method::SYSTEM_PAIRING_PIN,
            Call::SystemSetPairingPin(_) => method::SYSTEM_SET_PAIRING_PIN,
            Call::PadStatus => method::PAD_STATUS,
            Call::PadPair(_) => method::PAD_PAIR,
            Call::PadForget(_) => method::PAD_FORGET,
            Call::PadInput => method::PAD_INPUT,
            Call::RobotMove(_) => method::ROBOT_MOVE,
            Call::RobotHead(_) => method::ROBOT_HEAD,
            Call::RobotLook(_) => method::ROBOT_LOOK,
            Call::RobotStop => method::ROBOT_STOP,
            Call::RobotEnable(_) => method::ROBOT_ENABLE,
            Call::RobotDo(_) => method::ROBOT_DO,
            Call::RobotPose(_) => method::ROBOT_POSE,
            Call::RobotMouth(_) => method::ROBOT_MOUTH,
            Call::RobotSound(_) => method::ROBOT_SOUND,
            Call::RobotTheremin(_) => method::ROBOT_THEREMIN,
            Call::RobotChorale(_) => method::ROBOT_CHORALE,
            Call::RobotShutdown => method::ROBOT_SHUTDOWN,
            Call::RobotMode => method::ROBOT_MODE,
            Call::RobotInit => method::ROBOT_INIT,
            Call::RobotRelax => method::ROBOT_RELAX,
            Call::RobotSubscribe(_) => method::ROBOT_SUBSCRIBE,
            Call::ChoraleSubscribe => method::CHORALE_SUBSCRIBE,
            Call::ChoraleBeaconSet(_) => method::CHORALE_BEACON_SET,
            Call::ChoraleHeard(_) => method::CHORALE_HEARD,
            Call::TofStream => method::TOF_STREAM,
        }
    }

    /// Does this call change the robot's software, networks, identity or pads?
    pub fn is_mutating(&self) -> (r: bool)
        ensures
            r == self.mutates(),
    {
        matches!(
            self,
            Call::Apply(_) | Call::Rollback(_) | Call::ResetToGolden(_) | Call::Select(_)
                | Call::Pin(_) | Call::NetConnect(_) | Call::NetForget(_) | Call::SystemSetName(_)
                | Call::SystemReboot | Call::SystemSetPairingPin(_) | Call::PadPair(_)
                | Call::PadForget(_)
        )
    }
}

/// Two calls of one kind, whatever they carry.
pub open spec fn same_kind(a: Call, b: Call) -> bool {
    match (a, b) {
        (Call::Hello(_), Call::Hello(_)) => true,
        (Call::Check(_), Call::Check(_)) => true,
        (Call::Apply(_), Call::Apply(_)) => true,
        (Call::Rollback(_), Call::Rollback(_)) => true,
        (Call::ResetToGolden(_), Call::ResetToGolden(_)) => true,
        (Call::Select(_), Call::Select(_)) => true,
        (Call::Pin(_), Call::Pin(_)) => true,
        (Call::Status, Call::Status) => true,
        (Call::ListInstalled(_), Call::ListInstalled(_)) => true,
        (Call::Log(_), Call::Log(_)) => true,
        (Call::Subscribe, Call::Subscribe) => true,
        (Call::RobotSafeToRestart, Call::RobotSafeToRestart) => true,
        (Call::RobotHealth, Call::RobotHealth) => true,
        (Call::RobotModelApi, Call::RobotModelApi) => true,
        (Call::RobotRemoteSessionActive, Call::RobotRemoteSessionActive) => true,
        (Call::NetStatus, Call::NetStatus) => true,
        (Call::NetScan, Call::NetScan) => true,
        (Call::NetConnect(_), Call::NetConnect(_)) => true,
        (Call::NetForget(_), Call::NetForget(_)) => true,
        (Call::SystemInfo, Call::SystemInfo) => true,
        (Call::SystemSetName(_), Call::SystemSetName(_)) => true,
        (Call::SystemServices, Call::SystemServices) => true,
        (Call::SystemReboot, Call::SystemReboot) => true,
        (Call::SystemAuthenticate(_), Call::SystemAuthenticate(_)) => true,
        (Call::SystemPairingPin, Call::SystemPairingPin) => true,
        (Call::SystemSetPairingPin(_), Call::SystemSetPairingPin(_)) => true,
        (Call::PadStatus, Call::PadStatus) => true,
        (Call::PadPair(_), Call::PadPair(_)) => true,
        (Call::PadForget(_), Call::PadForget(_)) => true,
        (Call::PadInput, Call::PadInput) => true,
        (Call::RobotMove(_), Call::RobotMove(_)) => true,
        (Call::RobotHead(_), Call::RobotHead(_)) => true,
        (Call::RobotLook(_), Call::RobotLook(_)) => true,
        (Call::RobotStop, Call::RobotStop) => true,
        (Call::RobotEnable(_), Call::RobotEnable(_)) => true,
        (Call::RobotDo(_), Call::RobotDo(_)) => true,
        (Call::RobotPose(_), Call::RobotPose(_)) => true,
        (Call::RobotMouth(_), Call::RobotMouth(_)) => true,
        (Call::RobotSound(_), Call::RobotSound(_)) => true,
        (Call::RobotTheremin(_), Call::RobotTheremin(_)) => true,
        (Call::RobotChorale(_), Call::RobotChorale(_)) => true,
        (Call::RobotShutdown, Call::RobotShutdown) => true,
        (Call::RobotMode, Call::RobotMode) => true,
        (Call::RobotInit, Call::RobotInit) => true,
        (Call::RobotRelax, Call::RobotRelax) => true,
        (Call::RobotSubscribe(_), Call::RobotSubscribe(_)) => true,
        (Call::ChoraleSubscribe, Call::ChoraleSubscribe) => true,
        (Call::ChoraleBeaconSet(_), Call::ChoraleBeaconSet(_)) => true,
        (Call::ChoraleHeard(_), Call::ChoraleHeard(_)) => true,
        (Call::TofStream, Call::TofStream) => true,
        _ => false,
    }
}

/// What tells the method names apart: how long a name is, how it starts and how it ends.
spec fn fingerprint(name: Seq<char>) -> (nat, char, char, char) {
    (name.len(), name[0], name[name.len() - 2], name[name.len() - 1])
}

proof fn fingerprint_of(call: Call)
    ensures
        fingerprint(call.method_name()) == match call {
            Call::Hello(_) => (5nat, 'h', 'l', 'o'),
            Call::Check(_) => (12nat, 'u', 'c', 'k'),
            Call::Apply(_) => (12nat, 'u', 'l', 'y'),
            Call::Rollback(_) => (15nat, 'u', 'c', 'k'),
            Call::ResetToGolden(_) => (20nat, 'u', 'e', 'n'),
            Call::Select(_) => (13nat, 'u', 'c', 't'),
            Call::Pin(_) => (10nat, 'u', 'i', 'n'),
            Call::Status => (13nat, 'u', 'u', 's'),
            Call::ListInstalled(_) => (20nat, 'u', 'e', 'd'),
            Call::Log(_) => (10nat, 'u', 'o', 'g'),
            Call::Subscribe => (16nat, 'u', 'b', 'e'),
            Call::RobotSafeToRestart => (19nat, 'r', 'r', 't'),
            Call::RobotHealth => (12nat, 'r', 't', 'h'),
            Call::RobotModelApi => (14nat, 'r', 'p', 'i'),
            Call::RobotRemoteSessionActive => (25nat, 'r', 'v', 'e'),
            Call::NetStatus => (10nat, 'n', 'u', 's'),
            Call::NetScan => (8nat, 'n', 'a', 'n'),
            Call::NetConnect(_) => (11nat, 'n', 'c', 't'),
            Call::NetForget(_) => (10nat, 'n', 'e', 't'),
            Call::SystemInfo => (11nat, 's', 'f', 'o'),
            Call::SystemSetName(_) => (14nat, 's', 'm', 'e'),
            Call::SystemServices => (15nat, 's', 'e', 's'),
            Call::SystemReboot => (13nat, 's', 'o', 't'),
            Call::SystemAuthenticate(_) => (19nat, 's', 't', 'e'),
            Call::SystemPairingPin => (17nat, 's', 'i', 'n'),
            Call::SystemSetPairingPin(_) => (20nat, 's', 'i', 'n'),
            Call::PadStatus => (10nat, 'p', 'u', 's'),
            Call::PadPair(_) => (8nat, 'p', 'i', 'r'),
            Call::PadForget(_) => (10nat, 'p', 'e', 't'),
            Call::PadInput => (9nat, 'p', 'u', 't'),
            Call::RobotMove(_) => (10nat, 'r', 'v', 'e'),
            Call::RobotHead(_) => (10nat, 'r', 'a', 'd'),
            Call::RobotLook(_) => (10nat, 'r', 'o', 'k'),
            Call::RobotStop => (10nat, 'r', 'o', 'p'),
            Call::RobotEnable(_) => (12nat, 'r', 'l', 'e'),
            Call::RobotDo(_) => (8nat, 'r', 'd', 'o'),
            Call::RobotPose(_) => (10nat, 'r', 's', 'e'),
            Call::RobotMouth(_) => (11nat, 'r', 't', 'h'),
            Call::RobotSound(_) => (11nat, 'r', 'n', 'd'),
            Call::RobotTheremin(_) => (14nat, 'r', 'i', 'n'),
            Call::RobotChorale(_) => (13nat, 'r', 'l', 'e'),
            Call::RobotShutdown => (14nat, 'r', 'w', 'n'),
            Call::RobotMode => (10nat, 'r', 'd', 'e'),
            Call::RobotInit => (10nat, 'r', 'i', 't'),
            Call::RobotRelax => (11nat, 'r', 'a', 'x'),
            Call::RobotSubscribe(_) => (15nat, 'r', 'b', 'e'),
            Call::ChoraleSubscribe => (17nat, 'c', 'b', 'e'),
            Call::ChoraleBeaconSet(_) => (17nat, 'c', 'e', 't'),
            Call::ChoraleHeard(_) => (13nat, 'c', 'r', 'd'),
            Call::TofStream => (10nat, 't', 'a', 'm'),
        },
{
    match call {
        Call::Hello(_) => {
            reveal_strlit("hello");
        },
        Call::Check(_) => {
            reveal_strlit("update.check");
        },
        Call::Apply(_) => {
            reveal_strlit("update.apply");
        },
        Call::Rollback(_) => {
            reveal_strlit("update.rollback");
        },
        Call::ResetToGolden(_) => {
            reveal_strlit("update.resetToGolden");
        },
        Call::Select(_) => {
            reveal_strlit("update.select");
        },
        Call::Pin(_) => {
            reveal_strlit("update.pin");
        },
        Call::Status => {
            reveal_strlit("update.status");
        },
        Call::ListInstalled(_) => {
            reveal_strlit("update.listInstalled");
        },
        Call::Log(_) => {
            reveal_strlit("update.log");
        },
        Call::Subscribe => {
            reveal_strlit("update.subscribe");
        },
        Call::RobotSafeToRestart => {
            reveal_strlit("robot.safeToRestart");
        },
        Call::RobotHealth => {
            reveal_strlit("robot.health");
        },
        Call::RobotModelApi => {
            reveal_strlit("robot.modelApi");
        },
        Call::RobotRemoteSessionActive => {
            reveal_strlit("robot.remoteSessionActive");
        },
        Call::NetStatus => {
            reveal_strlit("net.status");
        },
        Call::NetScan => {
            reveal_strlit("net.scan");
        },
        Call::NetConnect(_) => {
            reveal_strlit("net.connect");
        },
        Call::NetForget(_) => {
            reveal_strlit("net.forget");
        },
        Call::SystemInfo => {
            reveal_strlit("system.info");
        },
        Call::SystemSetName(_) => {
            reveal_strlit("system.setName");
        },
        Call::SystemServices => {
            reveal_strlit("system.services");
        },
        Call::SystemReboot => {
            reveal_strlit("system.reboot");
        },
        Call::SystemAuthenticate(_) => {
            reveal_strlit("system.authenticate");
        },
        Call::SystemPairingPin => {
            reveal_strlit("system.pairingPin");
        },
        Call::SystemSetPairingPin(_) => {
            reveal_strlit("system.setPairingPin");
        },
        Call::PadStatus => {
            reveal_strlit("pad.status");
        },
        Call::PadPair(_) => {
            reveal_strlit("pad.pair");
        },
        Call::PadForget(_) => {
            reveal_strlit("pad.forget");
        },
        Call::PadInput => {
            reveal_strlit("pad.input");
        },
        Call::RobotMove(_) => {
            reveal_strlit("robot.move");
        },
        Call::RobotHead(_) => {
            reveal_strlit("robot.head");
        },
        Call::RobotLook(_) => {
            reveal_strlit("robot.look");
        },
        Call::RobotStop => {
            reveal_strlit("robot.stop");
        },
        Call::RobotEnable(_) => {
            reveal_strlit("robot.enable");
        },
        Call::RobotDo(_) => {
            reveal_strlit("robot.do");
        },
        Call::RobotPose(_) => {
            reveal_strlit("robot.pose");
        },
        Call::RobotMouth(_) => {
            reveal_strlit("robot.mouth");
        },
        Call::RobotSound(_) => {
            reveal_strlit("robot.sound");
        },
        Call::RobotTheremin(_) => {
            reveal_strlit("robot.theremin");
        },
        Call::RobotChorale(_) => {
            reveal_strlit("robot.chorale");
        },
        Call::RobotShutdown => {
            reveal_strlit("robot.shutdown");
        },
        Call::RobotMode => {
            reveal_strlit("robot.mode");
        },
        Call::RobotInit => {
            reveal_strlit("robot.init");
        },
        Call::RobotRelax => {
            reveal_strlit("robot.relax");
        },
        Call::RobotSubscribe(_) => {
            reveal_strlit("robot.subscribe");
        },
        Call::ChoraleSubscribe => {
            reveal_strlit("chorale.subscribe");
        },
        Call::ChoraleBeaconSet(_) => {
            reveal_strlit("chorale.beaconSet");
        },
        Call::ChoraleHeard(_) => {
            reveal_strlit("chorale.heard");
        },
        Call::TofStream => {
            reveal_strlit("tof.stream");
        },
    }
}

/// A method name says which call it makes: no two kinds of call share one.
pub proof fn a_method_makes_one_call(a: Call, b: Call)
    requires
        a.method_name() == b.method_name(),
    ensures
        same_kind(a, b),
{
    fingerprint_of(a);
    fingerprint_of(b);
}

// ── build identity ───────────────────────────────────────────────────────────

/// What a binary reports about itself.
#[derive(Debug, Clone, Copy, PartialEq, Eq)]
pub struct BuildInfo {
    pub version: &'static str,
    /// Git SHA, or `None` for a build that did not come from CI.
    pub revision: Option<&'static str>,
    /// Build timestamp, or `None` locally.
    pub built_at: Option<&'static str>,
}

/// The identity of the binary that calls this, which alone can name its own version.
pub fn build_info(
    version: &'static str,
    revision: Option<&'static str>,
    built_at: Option<&'static str>,
) -> (r: BuildInfo)
    ensures
        r.version == version,
        r.revision == revision,
        r.built_at == built_at,
{
    BuildInfo { version, revision, built_at }
}

impl BuildInfo {
    /// The identity on one line, explicit about what is unknown.
    pub open spec fn line(&self) -> Seq<char> {
        self.version@ + match self.revision {
            Some(rev) => " (rev "@ + rev@,
            None => " (rev unknown, not a CI build"@,
        } + match self.built_at {
            Some(at) => ", built "@ + at@ + ")"@,
            None => ")"@,
        }
    }

    /// The identity on one line.
    pub fn to_string(&self) -> (r: String)
        ensures
            r@ == self.line(),
    {
        let mut out = self.version.to_owned();
        let rev = match self.revision {
            Some(rev) => " (rev ".to_owned().concat(rev),
            None => " (rev unknown, not a CI build".to_owned(),
        };
        let built = match self.built_at {
            Some(at) => ", built ".to_owned().concat(at).concat(")"),
            None => ")".to_owned(),
        };
        out.append(rev.as_str());
        out.append(built.as_str());
        out
    }
}

// ── what is written down ─────────────────────────────────────────────────────

/// An error is written as its code in brackets and its message behind it, and another code or
/// message changes nothing else.
pub proof fn an_error_shows_its_code_and_message(
    code: int,
    other: int,
    message: Seq<char>,
    reason: Seq<char>,
)
    ensures
        text::differ_behind(
            error_text(code, message),
            error_text(other, message),
            seq!['['],
            text::signed_dec(code),
            text::signed_dec(other),
        ),
        text::differ_behind(
            error_text(code, message),
            error_text(code, reason),
            "] "@,
            message,
            reason,
        ),
{
    let none = Seq::<char>::empty();
    let (x, y) = (text::signed_dec(code), text::signed_dec(other));
    reveal_strlit("[");
    assert("["@ =~= seq!['[']);
    text::a_change_behind_a_label(none, seq!['['], x, y, "] "@ + message);
    assert(error_text(code, message) =~= none + seq!['['] + x + ("] "@ + message));
    assert(error_text(other, message) =~= none + seq!['['] + y + ("] "@ + message));
    text::a_change_behind_a_label("["@ + x, "] "@, message, reason, none);
    assert(error_text(code, message) =~= "["@ + x + "] "@ + message + none);
    assert(error_text(code, reason) =~= "["@ + x + "] "@ + reason + none);
}

/// No two phases go by one name.
pub proof fn a_phase_has_a_name_of_its_own(a: Phase, b: Phase)
    requires
        phase_name(a) == phase_name(b),
    ensures
        a == b,
{
    reveal_strlit("Idle");
    reveal_strlit("Preflight");
    reveal_strlit("Checking");
    reveal_strlit("Downloading");
    reveal_strlit("Verifying");
    reveal_strlit("Extracting");
    reveal_strlit("RunningPreHook");
    reveal_strlit("Swapping");
    reveal_strlit("RunningPostHook");
    reveal_strlit("Applying");
    reveal_strlit("HealthGate");
    reveal_strlit("Committing");
    reveal_strlit("RollingBack");
    let (x, y) = (phase_name(a), phase_name(b));
    assert(x.len() == y.len() && x[0] == y[0] && x[1] == y[1] && x[3] == y[3]);
}

/// A build's line starts with its version, shows the revision and the time it was built each
/// behind its label, and is explicit about a revision that is unknown.
pub proof fn a_build_line_shows_what_is_known(a: BuildInfo, b: BuildInfo)
    ensures
        a.version@.is_prefix_of(a.line()),
        a.version == b.version && a.built_at == b.built_at && a.revision is Some
            && b.revision is Some ==> text::differ_behind(
            a.line(),
            b.line(),
            a.version@ + " (rev "@,
            a.revision->0@,
            b.revision->0@,
        ),
        a.version == b.version && a.revision == b.revision && a.built_at is Some
            && b.built_at is Some ==> text::differ_behind(
            a.line(),
            b.line(),
            ", built "@,
            a.built_at->0@,
            b.built_at->0@,
        ),
        a.revision is None && a.built_at is None ==> a.line() == a.version@
            + " (rev unknown, not a CI build"@ + ")"@,
        a.line().last() == ')',
{
    let none = Seq::<char>::empty();
    reveal_strlit(")");
    assert(a.line().subrange(0, a.version@.len() as int) =~= a.version@);
    let built = match a.built_at {
        Some(at) => ", built "@ + at@ + ")"@,
        None => ")"@,
    };
    let rev = match a.revision {
        Some(rev) => " (rev "@ + rev@,
        None => " (rev unknown, not a CI build"@,
    };
    if a.version == b.version && a.built_at == b.built_at && a.revision is Some && b.revision is Some {
        let label = a.version@ + " (rev "@;
        text::a_change_behind_a_label(none, label, a.revision->0@, b.revision->0@, built);
        assert(a.line() =~= none + label + a.revision->0@ + built);
        assert(b.line() =~= none + label + b.revision->0@ + built);
    }
    if a.version == b.version && a.revision == b.revision && a.built_at is Some && b.built_at is Some {
        let before = a.version@ + rev;
        let (x, y) = (a.built_at->0@, b.built_at->0@);
        text::a_change_behind_a_label(before, ", built "@, x, y, ")"@);
        assert(a.line() =~= before + ", built "@ + x + ")"@);
        assert(b.line() =~= before + ", built "@ + y + ")"@);
    }
}

/// The published names of the calls, and which call each of them makes.
pub proof fn each_call_has_its_published_name(call: Call)
    ensures
        call.method_name() == "hello"@ <==> call is Hello,
        call.method_name() == "update.check"@ <==> call is Check,
        call.method_name() == "update.apply"@ <==> call is Apply,
        call.method_name() == "update.rollback"@ <==> call is Rollback,
        call.method_name() == "update.resetToGolden"@ <==> call is ResetToGolden,
        call.method_name() == "update.select"@ <==> call is Select,
        call.method_name() == "update.pin"@ <==> call is Pin,
        call.method_name() == "update.status"@ <==> call is Status,
        call.method_name() == "update.listInstalled"@ <==> call is ListInstalled,
        call.method_name() == "update.log"@ <==> call is Log,
        call.method_name() == "update.subscribe"@ <==> call is Subscribe,
        call.method_name() == "robot.safeToRestart"@ <==> call is RobotSafeToRestart,
        call.method_name() == "robot.health"@ <==> call is RobotHealth,
        call.method_name() == "robot.modelApi"@ <==> call is RobotModelApi,
        call.method_name() == "robot.remoteSessionActive"@ <==> call is RobotRemoteSessionActive,
        call.method_name() == "net.status"@ <==> call is NetStatus,
        call.method_name() == "net.scan"@ <==> call is NetScan,
        call.method_name() == "net.connect"@ <==> call is NetConnect,
        call.method_name() == "net.forget"@ <==> call is NetForget,
        call.method_name() == "system.info"@ <==> call is SystemInfo,
        call.method_name() == "system.setName"@ <==> call is SystemSetName,
        call.method_name() == "system.services"@ <==> call is SystemServices,
        call.method_name() == "system.reboot"@ <==> call is SystemReboot,
        call.method_name() == "system.authenticate"@ <==> call is SystemAuthenticate,
        call.method_name() == "system.pairingPin"@ <==> call is SystemPairingPin,
        call.method_name() == "system.setPairingPin"@ <==> call is SystemSetPairingPin,
        call.method_name() == "pad.status"@ <==> call is PadStatus,
        call.method_name() == "pad.pair"@ <==> call is PadPair,
        call.method_name() == "pad.forget"@ <==> call is PadForget,
        call.method_name() == "pad.input"@ <==> call is PadInput,
        call.method_name() == "robot.move"@ <==> call is RobotMove,
        call.method_name() == "robot.head"@ <==> call is RobotHead,
        call.method_name() == "robot.look"@ <==> call is RobotLook,
        call.method_name() == "robot.stop"@ <==> call is RobotStop,
        call.method_name() == "robot.enable"@ <==> call is RobotEnable,
        call.method_name() == "robot.do"@ <==> call is RobotDo,
        call.method_name() == "robot.pose"@ <==> call is RobotPose,
        call.method_name() == "robot.mouth"@ <==> call is RobotMouth,
        call.method_name() == "robot.sound"@ <==> call is RobotSound,
        call.method_name() == "robot.theremin"@ <==> call is RobotTheremin,
        call.method_name() == "robot.chorale"@ <==> call is RobotChorale,
        call.method_name() == "robot.shutdown"@ <==> call is RobotShutdown,
        call.method_name() == "robot.mode"@ <==> call is RobotMode,
        call.method_name() == "robot.init"@ <==> call is RobotInit,
        call.method_name() == "robot.relax"@ <==> call is RobotRelax,
        call.method_name() == "robot.subscribe"@ <==> call is RobotSubscribe,
        call.method_name() == "chorale.subscribe"@ <==> call is ChoraleSubscribe,
        call.method_name() == "chorale.beaconSet"@ <==> call is ChoraleBeaconSet,
        call.method_name() == "chorale.heard"@ <==> call is ChoraleHeard,
        call.method_name() == "tof.stream"@ <==> call is TofStream,
{
    fingerprint_of(call);
    reveal_strlit("hello");
    reveal_strlit("update.check");
    reveal_strlit("update.apply");
    reveal_strlit("update.rollback");
    reveal_strlit("update.resetToGolden");
    reveal_strlit("update.select");
    reveal_strlit("update.pin");
    reveal_strlit("update.status");
    reveal_strlit("update.listInstalled");
    reveal_strlit("update.log");
    reveal_strlit("update.subscribe");
    reveal_strlit("robot.safeToRestart");
    reveal_strlit("robot.health");
    reveal_strlit("robot.modelApi");
    reveal_strlit("robot.remoteSessionActive");
    reveal_strlit("net.status");
    reveal_strlit("net.scan");
    reveal_strlit("net.connect");
    reveal_strlit("net.forget");
    reveal_strlit("system.info");
    reveal_strlit("system.setName");
    reveal_strlit("system.services");
    reveal_strlit("system.reboot");
    reveal_strlit("system.authenticate");
    reveal_strlit("system.pairingPin");
    reveal_strlit("system.setPairingPin");
    reveal_strlit("pad.status");
    reveal_strlit("pad.pair");
    reveal_strlit("pad.forget");
    reveal_strlit("pad.input");
    reveal_strlit("robot.move");
    reveal_strlit("robot.head");
    reveal_strlit("robot.look");
    reveal_strlit("robot.stop");
    reveal_strlit("robot.enable");
    reveal_strlit("robot.do");
    reveal_strlit("robot.pose");
    reveal_strlit("robot.mouth");
    reveal_strlit("robot.sound");
    reveal_strlit("robot.theremin");
    reveal_strlit("robot.chorale");
    reveal_strlit("robot.shutdown");
    reveal_strlit("robot.mode");
    reveal_strlit("robot.init");
    reveal_strlit("robot.relax");
    reveal_strlit("robot.subscribe");
    reveal_strlit("chorale.subscribe");
    reveal_strlit("chorale.beaconSet");
    reveal_strlit("chorale.heard");
    reveal_strlit("tof.stream");
    assert(fingerprint("hello"@) == (5nat, 'h', 'l', 'o'));
    assert(fingerprint("update.check"@) == (12nat, 'u', 'c', 'k'));
    assert(fingerprint("update.apply"@) == (12nat, 'u', 'l', 'y'));
    assert(fingerprint("update.rollback"@) == (15nat, 'u', 'c', 'k'));
    assert(fingerprint("update.resetToGolden"@) == (20nat, 'u', 'e', 'n'));
    assert(fingerprint("update.select"@) == (13nat, 'u', 'c', 't'));
    assert(fingerprint("update.pin"@) == (10nat, 'u', 'i', 'n'));
    assert(fingerprint("update.status"@) == (13nat, 'u', 'u', 's'));
    assert(fingerprint("update.listInstalled"@) == (20nat, 'u', 'e', 'd'));
    assert(fingerprint("update.log"@) == (10nat, 'u', 'o', 'g'));
    assert(fingerprint("update.subscribe"@) == (16nat, 'u', 'b', 'e'));
    assert(fingerprint("robot.safeToRestart"@) == (19nat, 'r', 'r', 't'));
    assert(fingerprint("robot.health"@) == (12nat, 'r', 't', 'h'));
    assert(fingerprint("robot.modelApi"@) == (14nat, 'r', 'p', 'i'));
    assert(fingerprint("robot.remoteSessionActive"@) == (25nat, 'r', 'v', 'e'));
    assert(fingerprint("net.status"@) == (10nat, 'n', 'u', 's'));
    assert(fingerprint("net.scan"@) == (8nat, 'n', 'a', 'n'));
    assert(fingerprint("net.connect"@) == (11nat, 'n', 'c', 't'));
    assert(fingerprint("net.forget"@) == (10nat, 'n', 'e', 't'));
    assert(fingerprint("system.info"@) == (11nat, 's', 'f', 'o'));
    assert(fingerprint("system.setName"@) == (14nat, 's', 'm', 'e'));
    assert(fingerprint("system.services"@) == (15nat, 's', 'e', 's'));
    assert(fingerprint("system.reboot"@) == (13nat, 's', 'o', 't'));
    assert(fingerprint("system.authenticate"@) == (19nat, 's', 't', 'e'));
    assert(fingerprint("system.pairingPin"@) == (17nat, 's', 'i', 'n'));
    assert(fingerprint("system.setPairingPin"@) == (20nat, 's', 'i', 'n'));
    assert(fingerprint("pad.status"@) == (10nat, 'p', 'u', 's'));
    assert(fingerprint("pad.pair"@) == (8nat, 'p', 'i', 'r'));
    assert(fingerprint("pad.forget"@) == (10nat, 'p', 'e', 't'));
    assert(fingerprint("pad.input"@) == (9nat, 'p', 'u', 't'));
    assert(fingerprint("robot.move"@) == (10nat, 'r', 'v', 'e'));
    assert(fingerprint("robot.head"@) == (10nat, 'r', 'a', 'd'));
    assert(fingerprint("robot.look"@) == (10nat, 'r', 'o', 'k'));
    assert(fingerprint("robot.stop"@) == (10nat, 'r', 'o', 'p'));
    assert(fingerprint("robot.enable"@) == (12nat, 'r', 'l', 'e'));
    assert(fingerprint("robot.do"@) == (8nat, 'r', 'd', 'o'));
    assert(fingerprint("robot.pose"@) == (10nat, 'r', 's', 'e'));
    assert(fingerprint("robot.mouth"@) == (11nat, 'r', 't', 'h'));
    assert(fingerprint("robot.sound"@) == (11nat, 'r', 'n', 'd'));
    assert(fingerprint("robot.theremin"@) == (14nat, 'r', 'i', 'n'));
    assert(fingerprint("robot.chorale"@) == (13nat, 'r', 'l', 'e'));
    assert(fingerprint("robot.shutdown"@) == (14nat, 'r', 'w', 'n'));
    assert(fingerprint("robot.mode"@) == (10nat, 'r', 'd', 'e'));
    assert(fingerprint("robot.init"@) == (10nat, 'r', 'i', 't'));
    assert(fingerprint("robot.relax"@) == (11nat, 'r', 'a', 'x'));
    assert(fingerprint("robot.subscribe"@) == (15nat, 'r', 'b', 'e'));
    assert(fingerprint("chorale.subscribe"@) == (17nat, 'c', 'b', 'e'));
    assert(fingerprint("chorale.beaconSet"@) == (17nat, 'c', 'e', 't'));
    assert(fingerprint("chorale.heard"@) == (13nat, 'c', 'r', 'd'));
    assert(fingerprint("tof.stream"@) == (10nat, 't', 'a', 'm'));
}

/// What a call cannot do: asking, following and everything that moves the robot or makes it sound
/// change nothing that is kept. Every other call does.
pub proof fn these_calls_change_nothing(call: Call)
    ensures
        !call.mutates() <==> (
            call is Hello || call is Check || call is Status || call is ListInstalled
            || call is Log || call is Subscribe || call is RobotSafeToRestart
            || call is RobotHealth || call is RobotModelApi || call is RobotRemoteSessionActive
            || call is NetStatus || call is NetScan || call is SystemInfo
            || call is SystemServices || call is SystemAuthenticate || call is SystemPairingPin
            || call is PadStatus || call is PadInput || call is RobotMove || call is RobotHead
            || call is RobotLook || call is RobotStop || call is RobotEnable || call is RobotDo
            || call is RobotPose || call is RobotMouth || call is RobotSound
            || call is RobotTheremin || call is RobotChorale || call is RobotShutdown
            || call is RobotMode || call is RobotInit || call is RobotRelax
            || call is RobotSubscribe || call is ChoraleSubscribe || call is ChoraleBeaconSet
            || call is ChoraleHeard || call is TofStream),
{
}

/// An identifier is told from every other by what it says: numbers by value, texts by their
/// characters, and a number from any text.
pub proof fn identifiers_say_which_they_are(n: u64, m: u64, s: String, t: String)
    ensures
        Id::Number(n)@ == Id::Number(m)@ <==> n == m,
        Id::Text(s)@ == Id::Text(t)@ <==> s@ == t@,
        Id::Number(n)@ != Id::Text(s)@,
{
}

} // verus!
