//! The bootstrap subcommands, as plain data. The command-line front end
//! parses its arguments into this type before handing control to the
//! bootstrap drivers.
use vstd::prelude::*;

verus! {

/// A bootstrap subcommand and its options.
#[derive(Clone, PartialEq, Eq, Debug)]
pub enum BootstrapCommands {
    /// Run the full bootstrap: check prerequisites, auto-install what is
    /// missing, start services, create the directory skeleton, and write the
    /// report.
    Run {
        /// Skip directory creation.
        skip_dirs: bool,
        /// Skip auto-installation of missing binaries.
        skip_install: bool,
        /// Skip starting services.
        skip_services: bool,
        /// Where to write the report, when not the default location.
        output: Option<String>,
        /// Print the report to standard output instead of writing a file.
        print: bool,
    },
    /// Check prerequisites only.
    Check,
    /// Create the directory skeleton only.
    Skeleton,
}

} // verus!
