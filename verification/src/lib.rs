//! The logic of a small walking robot's services: the protocol they speak, the Bluetooth
//! front door, the configuration daemon, the command line client and its live view.
//!
//! Every decision, parser, table and rendering that does not need a socket, a clock or a
//! floating point unit lives here, with its behaviour stated in contracts. The programs that
//! own the sockets call into it.
pub mod client;
pub mod code;
pub mod commands;
pub mod duck;
pub mod exit;
pub mod framing;
pub mod gatt;
pub mod hand;
pub mod head;
pub mod method;
pub mod monitor;
pub mod net;
pub mod pairing;
pub mod panel;
pub mod pipeline;
pub mod progress;
pub mod proto;
pub mod rank;
pub mod raster;
pub mod report;
pub mod route;
pub mod session;
pub mod text;
pub mod units;
pub mod upstream;
pub mod version;
