//! The decision logic of a node agent that runs pods on a container engine.

use vstd::prelude::*;

pub mod config;
pub mod dns;
pub mod engine;
pub mod env;
pub mod expand;
pub mod gc;
pub mod hook;
pub mod hostpath;
pub mod hostport;
pub mod hosts;
pub mod image;
pub mod init;
pub mod init_status;
pub mod metrics;
pub mod mounts;
pub mod names;
pub mod network;
pub mod pause;
pub mod probe;
pub mod pull;
pub mod quantity;
pub mod request;
pub mod resources;
pub mod runtime;
pub mod server;
pub mod serviceaccount;
pub mod shell;
pub mod start_container;
pub mod start_pod;
pub mod status;
pub mod stop;
pub mod streaming_server;
pub mod sync_locks;
pub mod sysctl;
pub mod termination;
pub mod text;
pub mod time;

verus! {

} // verus!
