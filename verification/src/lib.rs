//! Decisions of an initrd bootstrap, with every rule stated as a contract.
//!
//! The bootstrap brings a system from its initrd to the root filesystem and its
//! init program. What it does to the system is written down as scripts
//! ([`script`]), or, where what comes next hangs on what was found, as walks that
//! ask one question at a time. Nothing here touches the system itself.

// Ground: text, paths, numbers and the language of scripts.
pub mod devnum;
pub mod env;
pub mod flags;
pub mod names;
pub mod paths;
pub mod script;
pub mod text;

// What is asked for.
pub mod cmdline;
pub mod config;
pub mod fsinfo;
pub mod options;

// Devices.
pub mod device_manager;
pub mod loop_device;
pub mod modules;
pub mod poll;
pub mod probe;
pub mod resume;

// Filesystems.
pub mod bcachefs;
pub mod early;
pub mod filesystem;
pub mod fsck;
pub mod live;
pub mod lustrate;
pub mod mount;
pub mod mounts;
pub mod root;

// The system around them, and the walk through the phases.
pub mod boot;
pub mod failure;
pub mod processes;
pub mod secrets;
pub mod setup;
pub mod switch;
pub mod trees;
