//! A launcher library for a modded game installation: staged installation
//! checks, the modpack synchronisation session, version descriptors, the
//! classpath and the launch command, and named instances.
pub mod text;
pub mod modpack;
pub mod manifest;
pub mod sync;
pub mod launch;
pub mod json;
pub mod descriptor;
pub mod classpath;
pub mod command;
pub mod log;
pub mod instance;
pub mod pack;
