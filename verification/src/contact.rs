//! The commands on contacts.

use crate::card::same_text;
use vstd::prelude::*;

verus! {

/// A command on contacts.
#[derive(Debug, Clone, Copy, PartialEq, Eq, Structural)]
pub enum Cmd {
    /// Synchronizes the contacts.
    Sync,
}

/// The command that a subcommand's name stands for: `sync` is the only one.
pub fn matches(subcommand: Option<&str>) -> (cmd: Option<Cmd>)
    ensures
        cmd == (if subcommand is Some && subcommand.unwrap()@ == "sync"@ {
            Some(Cmd::Sync)
        } else {
            None
        }),
{
    match subcommand {
        Some(name) => if same_text(name, "sync") {
            Some(Cmd::Sync)
        } else {
            None
        },
        None => None,
    }
}

} // verus!
