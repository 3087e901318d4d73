//! The command-line surface, as plain data: the subcommands the runtime
//! offers and the options of `run`. Argument parsing itself stays with
//! the binary around the library.

use vstd::prelude::*;

verus! {

/// Options of `init`: scaffold a new project.
#[derive(Debug)]
pub struct InitOpts {}

/// Options of `build`: compile the user project into a single script
/// file with a companion route-definition file.
#[derive(Debug)]
pub struct BuildOpts {}

/// Options of `run`: build, then serve, watching the project directory.
#[derive(Debug)]
pub struct RunOpts {
    /// The port to listen on.
    pub port: u16,
}

impl Default for RunOpts {
    /// The port `run` uses when none is given.
    fn default() -> (r: Self)
        ensures
            r.port == 3000,
    {
        RunOpts { port: 3000 }
    }
}

/// The chosen subcommand.
#[derive(Debug)]
pub enum SubCommand {
    Init(InitOpts),
    Build(BuildOpts),
    Run(RunOpts),
}

/// The parsed command line.
#[derive(Debug)]
pub struct Opts {
    pub cmd: SubCommand,
}

} // verus!
