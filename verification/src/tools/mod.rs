//! The built-in tools, as far as they compute: reading their input,
//! shaping their output, and what they announce of themselves. Touching
//! files and running commands is the caller's part.

pub mod bash;
pub mod edit;
pub mod input;
pub mod read;
pub mod search;
pub mod subagent;
pub mod write;
