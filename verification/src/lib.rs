//! Verified core logic of a modular Minecraft launcher: launch-argument
//! construction, log analysis, Java distribution selection, download
//! bookkeeping and the small state machines around them.

pub mod text;
pub mod instance;
pub mod system;
pub mod arguments;
pub mod version;
pub mod events;
pub mod java;
pub mod hash;
pub mod app_state;
pub mod hosts;
pub mod installer;
pub mod download;
pub mod launch;
pub mod runner;
