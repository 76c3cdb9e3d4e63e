use vstd::prelude::*;

pub mod backend;
pub mod bar;
pub mod cli;
pub mod compositor;
pub mod config;
pub mod dispatch;
pub mod input;
pub mod ipc;
pub mod laws;
pub mod layout;
pub mod process;
pub mod scene;
pub mod state;
pub mod sync;
pub mod text;

verus! {

} // verus!
