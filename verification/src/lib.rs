pub mod capability;
pub mod commands;
pub mod datum;
pub mod detection;
pub mod installer;
pub mod orchestrator;
pub mod prereq;
pub mod probe;
pub mod report;
pub mod skeleton;
pub mod text;
pub mod version;
