//! Verified core of an in-process reader for an Unreal Engine game: which
//! addresses to read, what a read of the process memory may be trusted for,
//! how the level's actor array is located, and the parameter block handed to
//! the engine's line trace.
//!
//! Reading memory and calling into the engine need raw pointers, so they are
//! done by the caller. The searches here are written as step machines: each
//! step names the next address to read, and the caller feeds back what it read.

use vstd::prelude::*;

pub mod probe;
pub mod region;
pub mod memory;
pub mod scan;
pub mod actors;
pub mod raytrace;
pub mod trace_params;
pub mod visuals;
