use vstd::prelude::*;

pub mod num;
pub mod paths;
pub mod text;
pub mod backend;
pub mod command;
pub mod filelock;
pub mod icons;
pub mod format;
pub mod ipv6;
pub mod localization;
pub mod netconn;
pub mod process;
pub mod sidebar;
pub mod startup;
pub mod stats;
pub mod systemd;
pub mod tabs;

verus! {

} // verus!
