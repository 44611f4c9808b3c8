//! A typing-speed trainer core: weighted word selection, a live character diff
//! between the target phrase and the typed input, and session metrics.

pub mod corpus;
pub mod diff;
pub mod metrics;
pub mod select;
pub mod session;
pub mod settings;
pub mod span;
pub mod text;
