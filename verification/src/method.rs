//! Method names. Namespaced, one namespace per owning service.
use vstd::prelude::*;

verus! {

pub const HELLO: &'static str = "hello";

pub const CHECK: &'static str = "update.check";

pub const APPLY: &'static str = "update.apply";

pub const ROLLBACK: &'static str = "update.rollback";

pub const RESET_TO_GOLDEN: &'static str = "update.resetToGolden";

pub const SELECT: &'static str = "update.select";

pub const PIN: &'static str = "update.pin";

pub const STATUS: &'static str = "update.status";

pub const LIST_INSTALLED: &'static str = "update.listInstalled";

pub const LOG: &'static str = "update.log";

pub const SUBSCRIBE: &'static str = "update.subscribe";

/// Server to client. Never carries an `id`.
pub const PROGRESS: &'static str = "update.progress";

/// May the control loop be restarted right now?
pub const ROBOT_SAFE_TO_RESTART: &'static str = "robot.safeToRestart";

/// Did the robot come up correctly? The health gate after an update.
pub const ROBOT_HEALTH: &'static str = "robot.health";

/// Which model API version does this build implement?
pub const ROBOT_MODEL_API: &'static str = "robot.modelApi";

/// Is a telepresence session live?
pub const ROBOT_SESSION_ACTIVE: &'static str = "robot.remoteSessionActive";

pub const ROBOT_MOVE: &'static str = "robot.move";

pub const ROBOT_HEAD: &'static str = "robot.head";

pub const ROBOT_LOOK: &'static str = "robot.look";

pub const ROBOT_STOP: &'static str = "robot.stop";

pub const ROBOT_ENABLE: &'static str = "robot.enable";

pub const ROBOT_DO: &'static str = "robot.do";

pub const ROBOT_POSE: &'static str = "robot.pose";

pub const ROBOT_MOUTH: &'static str = "robot.mouth";

pub const ROBOT_SOUND: &'static str = "robot.sound";

pub const ROBOT_THEREMIN: &'static str = "robot.theremin";

pub const ROBOT_CHORALE: &'static str = "robot.chorale";

pub const ROBOT_SHUTDOWN: &'static str = "robot.shutdown";

pub const ROBOT_MODE: &'static str = "robot.mode";

pub const ROBOT_INIT: &'static str = "robot.init";

pub const ROBOT_RELAX: &'static str = "robot.relax";

pub const ROBOT_SUBSCRIBE: &'static str = "robot.subscribe";

/// Server to client: one tick of the control loop.
pub const ROBOT_STATE: &'static str = "robot.state";

pub const NET_STATUS: &'static str = "net.status";

pub const NET_SCAN: &'static str = "net.scan";

pub const NET_CONNECT: &'static str = "net.connect";

pub const NET_FORGET: &'static str = "net.forget";

pub const SYSTEM_INFO: &'static str = "system.info";

pub const SYSTEM_SET_NAME: &'static str = "system.setName";

pub const SYSTEM_SERVICES: &'static str = "system.services";

pub const SYSTEM_REBOOT: &'static str = "system.reboot";

pub const SYSTEM_AUTHENTICATE: &'static str = "system.authenticate";

pub const SYSTEM_PAIRING_PIN: &'static str = "system.pairingPin";

pub const SYSTEM_SET_PAIRING_PIN: &'static str = "system.setPairingPin";

pub const PAD_STATUS: &'static str = "pad.status";

pub const PAD_PAIR: &'static str = "pad.pair";

pub const PAD_FORGET: &'static str = "pad.forget";

pub const PAD_INPUT: &'static str = "pad.input";

pub const CHORALE_SUBSCRIBE: &'static str = "chorale.subscribe";

pub const CHORALE_BEACON_SET: &'static str = "chorale.beaconSet";

pub const CHORALE_HEARD: &'static str = "chorale.heard";

pub const TOF_STREAM: &'static str = "tof.stream";

} // verus!
