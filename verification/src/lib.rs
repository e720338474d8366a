//! Layered override resolution and invocation assembly for named
//! subagents: toggle flags become enabled maps and textual overrides,
//! override layers merge in a fixed precedence order, and a validated run
//! request becomes the argument vector handed to the external executor.

pub mod definition;
pub mod invocation;
pub mod overrides;
pub mod show;
pub mod text;
pub mod toggles;
