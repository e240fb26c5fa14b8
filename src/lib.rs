//! Orchestration logic for packaging native library components with NuGet:
//! command-line configuration, discovery of solution, project and manifest
//! files among directory listings, the argument lists of the external tools,
//! and the order in which the restore, build and pack steps run.

pub mod cli;
pub mod discovery;
pub mod commands;
pub mod session;
