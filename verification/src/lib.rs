//! Tracking of Risk of Rain 2 eclipse levels per survivor: the survivor
//! roster, the text replies of the bot's commands and the decisions that
//! sit between its database reads and writes.
use vstd::prelude::*;

pub mod survivor;
pub mod text;
pub mod selector;
pub mod commands;

verus! {

} // verus!
