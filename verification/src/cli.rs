//! What the command line asks for.
use vstd::prelude::*;

verus! {

/// The command.
#[derive(Debug)]
pub enum Opts {
    /// Change or show the settings.
    Setup(Setup),
    /// Run the export.
    Export,
}

/// What to do with the settings.
#[derive(Debug)]
pub enum Setup {
    /// Change the settings that are given.
    Change(SetArgs),
    /// Show the settings.
    View,
}

/// The settings that a `set` command may give; `None` leaves one as it is.
#[derive(Debug)]
pub struct SetArgs {
    /// Path to the cluster file.
    pub cluster_file: Option<String>,
    /// Path to the protobuf file.
    pub proto_file: Option<String>,
    /// Address of the sink.
    pub database_url: Option<String>,
    /// Path to the mapping file.
    pub mapping_file: Option<String>,
}

} // verus!
