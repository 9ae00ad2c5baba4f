//! Control of external display monitors over DDC/CI: parsing of capability
//! strings, resolution of the selectable video inputs, and the decisions of
//! the worker that serializes all device access.

pub mod capabilities;
pub mod errors;
pub mod grammar;
pub mod input;
pub mod manager;
pub mod lexing;
pub mod mccs;
pub mod monitor;
pub mod text;
