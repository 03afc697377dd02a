use vstd::prelude::*;

pub mod text;
pub mod texture;
pub mod agent;
pub mod paths;
pub mod pr;
pub mod preview;
pub mod ui_state;
pub mod prompts;
pub mod selection_controls;
pub mod views;
pub mod branches;
pub mod staging;
