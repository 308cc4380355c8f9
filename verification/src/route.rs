//! Which calls Bluetooth may make, which service answers them, and which connection carries
//! them.
//!
//! One table decides all three: a call is permitted exactly when this file names the service
//! that answers it, and the [`Lane`] says which of that service's connections it travels on.
//! The table is exhaustive, so a new call cannot reach the radio by being forgotten.
use vstd::prelude::*;

use crate::code;
use crate::proto::{Call, Error};

verus! {

/// The service that owns the answer to a call.
#[derive(Debug, Clone, Copy, PartialEq, Eq, Hash, Structural)]
pub enum Upstream {
    Updater,
    Robot,
    /// Wifi and the robot's identity.
    Config,
}

/// Which connection to a service carries a call. A service reads one request at a time from a
/// connection, so calls are grouped by how long they hold one.
#[derive(Debug, Clone, Copy, PartialEq, Eq, Hash, Structural)]
pub enum Lane {
    /// Answers as fast as the service can look something up.
    Prompt,
    /// Seconds: a read that goes to the network or sweeps a radio.
    Slow,
    /// As long as it takes, and it changes the robot.
    Operation,
    /// Never answers: notifications until the peer goes away.
    Stream,
}

/// What happens to a call that arrives over Bluetooth.
#[derive(Debug, Clone, Copy, PartialEq, Eq, Structural)]
pub enum Route {
    /// Forwarded verbatim to a service, on that service's connection for this lane.
    To(Upstream, Lane),
    /// Answered by the transport itself.
    Local,
    /// Not available over this transport.
    Refused,
}

/// The table, read by destination.
pub open spec fn destination(call: &Call) -> Option<(Upstream, Lane)> {
    match *call {
        Call::Hello(_) | Call::Status | Call::Log(_) | Call::ListInstalled(_) => Some(
            (Upstream::Updater, Lane::Prompt),
        ),
        Call::Check(_) => Some((Upstream::Updater, Lane::Slow)),
        Call::Apply(_) | Call::Rollback(_) | Call::Select(_) => Some(
            (Upstream::Updater, Lane::Operation),
        ),
        Call::Subscribe => Some((Upstream::Updater, Lane::Stream)),
        Call::RobotHealth => Some((Upstream::Robot, Lane::Prompt)),
        Call::NetStatus | Call::NetForget(_) | Call::SystemInfo | Call::SystemSetName(_)
        | Call::SystemServices | Call::SystemReboot | Call::PadStatus | Call::PadForget(_) => Some(
            (Upstream::Config, Lane::Prompt),
        ),
        Call::NetScan => Some((Upstream::Config, Lane::Slow)),
        Call::NetConnect(_) | Call::PadPair(_) => Some((Upstream::Config, Lane::Operation)),
        _ => None,
    }
}

/// The service that answers a call.
pub open spec fn upstream_of(call: &Call) -> Option<Upstream> {
    match destination(call) {
        Some(d) => Some(d.0),
        None => None,
    }
}

/// The lane that carries a call.
pub open spec fn lane_of(call: &Call) -> Option<Lane> {
    match destination(call) {
        Some(d) => Some(d.1),
        None => None,
    }
}

/// The table, with the one call the transport answers itself.
pub open spec fn route(call: &Call) -> Route {
    if call is SystemAuthenticate {
        Route::Local
    } else {
        match destination(call) {
            Some(d) => Route::To(d.0, d.1),
            None => Route::Refused,
        }
    }
}

/// What a refused caller is told.
pub open spec fn refusal_text(method: Seq<char>) -> Seq<char> {
    method + " is not available over Bluetooth; use robotctl on the robot"@
}

/// Where this call goes and on which connection, or `None` if Bluetooth may not make it.
pub fn destination_for(call: &Call) -> (r: Option<(Upstream, Lane)>)
    ensures
        r == destination(call),
{
    match call {
        // The version handshake. Must be reachable or no client can establish anything.
        Call::Hello(_) => Some((Upstream::Updater, Lane::Prompt)),
        // The update commands, and the two ways back from one.
        Call::Apply(_) => Some((Upstream::Updater, Lane::Operation)),
        Call::Check(_) => Some((Upstream::Updater, Lane::Slow)),
        Call::Status => Some((Upstream::Updater, Lane::Prompt)),
        Call::Subscribe => Some((Upstream::Updater, Lane::Stream)),
        Call::Log(_) => Some((Upstream::Updater, Lane::Prompt)),
        Call::ListInstalled(_) => Some((Upstream::Updater, Lane::Prompt)),
        Call::Rollback(_) => Some((Upstream::Updater, Lane::Operation)),
        Call::Select(_) => Some((Upstream::Updater, Lane::Operation)),
        // The one question about the robot an app has.
        Call::RobotHealth => Some((Upstream::Robot, Lane::Prompt)),
        // Provisioning: what this transport exists for.
        Call::NetStatus => Some((Upstream::Config, Lane::Prompt)),
        Call::NetScan => Some((Upstream::Config, Lane::Slow)),
        Call::NetConnect(_) => Some((Upstream::Config, Lane::Operation)),
        Call::NetForget(_) => Some((Upstream::Config, Lane::Prompt)),
        Call::SystemInfo => Some((Upstream::Config, Lane::Prompt)),
        Call::SystemSetName(_) => Some((Upstream::Config, Lane::Prompt)),
        Call::SystemServices => Some((Upstream::Config, Lane::Prompt)),
        Call::SystemReboot => Some((Upstream::Config, Lane::Prompt)),
        // The gamepad: whoever holds the robot holds the pad.
        Call::PadStatus => Some((Upstream::Config, Lane::Prompt)),
        Call::PadPair(_) => Some((Upstream::Config, Lane::Operation)),
        Call::PadForget(_) => Some((Upstream::Config, Lane::Prompt)),
        // Answered by the transport, so it has no upstream.
        Call::SystemAuthenticate(_) => None,
        // A PIN an unpaired peer could read or set authorises nothing.
        Call::SystemPairingPin | Call::SystemSetPairingPin(_) => None,
        // A robot pinned by a mistap refuses every update and looks up to date.
        Call::Pin(_) => None,
        // Factory reset in all but name.
        Call::ResetToGolden(_) => None,
        // The update engine's private questions.
        Call::RobotSafeToRestart | Call::RobotModelApi | Call::RobotRemoteSessionActive => None,
        // Motor control, never over this link.
        Call::RobotMove(_) | Call::RobotHead(_) | Call::RobotLook(_) | Call::RobotEnable(_)
        | Call::RobotDo(_) | Call::RobotPose(_) | Call::RobotMouth(_) => None,
        // Sounds, until an app wants them.
        Call::RobotSound(_) | Call::RobotTheremin(_) | Call::RobotChorale(_) => None,
        // Between two daemons, not a client's.
        Call::ChoraleSubscribe | Call::ChoraleBeaconSet(_) | Call::ChoraleHeard(_) => None,
        // Whoever powers the robot off should be looking at it.
        Call::RobotShutdown => None,
        Call::RobotMode => None,
        Call::RobotInit | Call::RobotRelax => None,
        // A stop button over this link would look like an emergency stop and not be one.
        Call::RobotStop => None,
        // Streams too fast for the link.
        Call::RobotSubscribe(_) => None,
        Call::PadInput => None,
        Call::TofStream => None,
    }
}

/// The service that answers a call, ignoring which connection carries it.
pub fn upstream_for(call: &Call) -> (r: Option<Upstream>)
    ensures
        r == upstream_of(call),
{
    match destination_for(call) {
        Some((upstream, _)) => Some(upstream),
        None => None,
    }
}

/// The full routing decision, including the one call the transport answers itself.
pub fn route_for(call: &Call) -> (r: Route)
    ensures
        r == route(call),
{
    match call {
        Call::SystemAuthenticate(_) => Route::Local,
        other => match destination_for(other) {
            Some((upstream, lane)) => Route::To(upstream, lane),
            None => Route::Refused,
        },
    }
}

/// The error to answer a refused call with: this method exists, and this transport may not use
/// it.
pub fn refusal(call: &Call) -> (r: Error)
    ensures
        r.code == code::PERMISSION_DENIED,
        r.message@ == refusal_text(call.method_name()),
        r.data is None,
{
    let mut message = call.method().to_owned();
    message.append(" is not available over Bluetooth; use robotctl on the robot");
    Error::new(code::PERMISSION_DENIED, message)
}

// ── what the table keeps ─────────────────────────────────────────────────────

/// Nothing a client does during an update shares a connection with the update: asking for the
/// state, asking for a newer release and following progress reach the same service on other
/// lanes.
pub proof fn an_apply_blocks_nothing_done_during_one(apply: &Call, during: &Call)
    requires
        apply is Apply,
        during is Status || during is Subscribe || during is Check,
    ensures
        destination(apply) is Some,
        destination(during) is Some,
        upstream_of(during) == upstream_of(apply),
        lane_of(during) != lane_of(apply),
{
}

/// The progress stream is alone on its lane.
pub proof fn nothing_else_travels_on_the_stream_lane(call: &Call)
    ensures
        lane_of(call) == Some(Lane::Stream) <==> call is Subscribe,
{
}

/// A call that takes its time is never in front of the quick answers.
pub proof fn slow_calls_are_off_the_prompt_lane(call: &Call)
    requires
        call is Apply || call is Rollback || call is Select || call is Check || call is NetScan
            || call is NetConnect || call is PadPair,
    ensures
        lane_of(call) matches Some(lane) && lane != Lane::Prompt,
{
}

/// Exactly which mutating calls are reachable.
pub proof fn only_these_mutating_calls_are_reachable(call: &Call)
    ensures
        call.mutates() && destination(call) is Some <==> (call is Apply || call is Rollback
            || call is Select || call is NetConnect || call is NetForget || call is SystemSetName
            || call is SystemReboot || call is PadPair || call is PadForget),
{
}

/// Exactly which calls that change nothing are reachable, and who answers them: no other call
/// that changes nothing has a destination.
pub proof fn only_these_reading_calls_are_reachable(call: &Call)
    requires
        !call.mutates(),
    ensures
        upstream_of(call) == Some(Upstream::Updater) <==> (call is Hello || call is Status
            || call is Log || call is ListInstalled || call is Check || call is Subscribe),
        upstream_of(call) == Some(Upstream::Robot) <==> call is RobotHealth,
        upstream_of(call) == Some(Upstream::Config) <==> (call is NetStatus || call is NetScan
            || call is SystemInfo || call is SystemServices || call is PadStatus),
        destination(call) is None <==> !(call is Hello || call is Status || call is Log
            || call is ListInstalled || call is Check || call is Subscribe || call is RobotHealth
            || call is NetStatus || call is NetScan || call is SystemInfo
            || call is SystemServices || call is PadStatus),
{
}

/// Who answers the calls that change something: software goes to the updater, networks,
/// identity and pads to the configuration service, and none of them to the robot.
pub proof fn a_mutating_call_goes_to_the_owner_of_what_it_changes(call: &Call)
    requires
        call.mutates(),
    ensures
        upstream_of(call) == Some(Upstream::Updater) <==> (call is Apply || call is Rollback
            || call is Select),
        upstream_of(call) == Some(Upstream::Config) <==> (call is NetConnect || call is NetForget
            || call is SystemSetName || call is SystemReboot || call is PadPair
            || call is PadForget),
        upstream_of(call) != Some(Upstream::Robot),
        destination(call) is None <==> (call is ResetToGolden || call is Pin
            || call is SystemSetPairingPin),
{
}

/// What each lane carries: reads that leave the robot or sweep a radio are slow, what takes as
/// long as it takes is an operation, progress is the stream, and every other reachable call is
/// prompt.
pub proof fn each_lane_carries_its_own_calls(call: &Call)
    ensures
        lane_of(call) == Some(Lane::Slow) <==> (call is Check || call is NetScan),
        lane_of(call) == Some(Lane::Operation) <==> (call is Apply || call is Rollback
            || call is Select || call is NetConnect || call is PadPair),
        lane_of(call) == Some(Lane::Stream) <==> call is Subscribe,
        lane_of(call) == Some(Lane::Prompt) <==> (call is Hello || call is Status || call is Log
            || call is ListInstalled || call is RobotHealth || call is NetStatus
            || call is NetForget || call is SystemInfo || call is SystemSetName
            || call is SystemServices || call is SystemReboot || call is PadStatus
            || call is PadForget),
        lane_of(call) is Some <==> upstream_of(call) is Some,
{
}

/// A call that operates on the robot's software or radios changes the robot, and a call that is
/// streamed or slow changes nothing.
pub proof fn operations_mutate_and_reads_do_not(call: &Call)
    ensures
        lane_of(call) == Some(Lane::Operation) ==> call.mutates(),
        lane_of(call) == Some(Lane::Slow) ==> !call.mutates(),
        lane_of(call) == Some(Lane::Stream) ==> !call.mutates(),
{
}

/// A refused call is told which method was refused and where it can be used instead.
pub proof fn a_refusal_names_its_method(method: Seq<char>)
    ensures
        method.is_prefix_of(refusal_text(method)),
        refusal_text(method).skip(method.len() as int)
            == " is not available over Bluetooth; use robotctl on the robot"@,
{
    assert(refusal_text(method).subrange(0, method.len() as int) == method);
}

/// The pairing PIN can be neither read nor set over the radio.
pub proof fn the_pairing_pin_is_unreachable(call: &Call)
    requires
        call is SystemPairingPin || call is SystemSetPairingPin,
    ensures
        destination(call) is None,
        route(call) == Route::Refused,
{
}

/// Of everything `robotd` answers, only its health is reachable.
pub proof fn only_health_reaches_the_robot(call: &Call)
    ensures
        upstream_of(call) == Some(Upstream::Robot) <==> call is RobotHealth,
{
}

/// A call is forwarded exactly when a service is named for it, is answered here exactly when it
/// authenticates, and is refused otherwise.
pub proof fn permission_and_routing_are_one_table(call: &Call)
    ensures
        forall|u: Upstream, l: Lane|
            route(call) == Route::To(u, l) <==> destination(call) == Some((u, l)),
        route(call) == Route::Local <==> call is SystemAuthenticate,
        route(call) == Route::Refused <==> destination(call) is None
            && !(call is SystemAuthenticate),
{
}

} // verus!
