//! Moruna packaged as a microVM: the monitor's decisions, device models and boot data.

pub mod acpi;
pub mod boot;
pub mod bytes;
pub mod cli;
pub mod config;
pub mod control;
pub mod devices;
pub mod error;
pub mod fdt;
pub mod image;
pub mod kvm;
pub mod layout;
pub mod loader;
pub mod machine;
pub mod paths;
pub mod session;
pub mod sorted_map;
pub mod sources;
pub mod sys;
pub mod testkit;
pub mod text;
pub mod trace;
