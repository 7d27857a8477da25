//! Routing and dispatch for command-line tools made of several subcommands.
//!
//! A tool declares a [`table::RouteTable`] of commands. After its top-level
//! arguments are decoded, [`router::resolve`] decides what happens next:
//! show a usage text, show the table of commands, or hand the remaining
//! arguments on to one command.
use vstd::prelude::*;

pub mod decode;
pub mod listing;
pub mod router;
pub mod table;
pub mod text;

verus! {

} // verus!
