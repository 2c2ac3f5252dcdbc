//! eiderFLAT's editing core, verified: polygon boolean clipping, selection,
//! the command line and its typed input, tools and menus, the editing
//! session with undo and redo, and the smaller tables and helpers of the
//! interface.
use vstd::prelude::*;

pub mod clip;
pub mod closing;
pub mod command;
pub mod dispatch;
pub mod document;
pub mod history;
pub mod infer;
pub mod input;
pub mod menus;
pub mod modify;
pub mod properties;
pub mod raster;
pub mod selection;
pub mod session;
pub mod text;
pub mod tools;
pub mod ui;
pub mod words;

verus! {

} // verus!
