//! wts: create or remove workspaces in a sibling `<repo>-wts/` folder, for a
//! jj or git repo. This library holds the decisions; the program around it
//! runs the commands and touches the filesystem.
use vstd::prelude::*;

pub mod text;
pub mod naming;
pub mod paths;
pub mod backend;
pub mod action;
pub mod layout;
pub mod workspaces;
pub mod order;
pub mod copy;
pub mod steps;
pub mod create;
pub mod remove;

verus! {

} // verus!
