//! The command line of the puller: `pull IMAGE` and `run IMAGE COMMAND`.

use vstd::prelude::*;

verus! {

/// Arguments of `pull`.
#[derive(Debug)]
pub struct PullArgs {
    pub image: String,
}

/// Arguments of `run`.
#[derive(Debug)]
pub struct RunArgs {
    pub image: String,
    pub command: String,
}

/// A subcommand.
#[derive(Debug)]
pub enum Command {
    /// Download an image from a registry.
    Pull(PullArgs),
    /// Create and run a new container from an image.
    Run(RunArgs),
}

/// The parsed command line.
#[derive(Debug)]
pub struct Cli {
    pub command: Command,
}

impl Clone for PullArgs {
    fn clone(&self) -> (r: Self)
        ensures
            r == *self,
    {
        PullArgs { image: self.image.clone() }
    }
}

impl Clone for RunArgs {
    fn clone(&self) -> (r: Self)
        ensures
            r == *self,
    {
        RunArgs { image: self.image.clone(), command: self.command.clone() }
    }
}

} // verus!
