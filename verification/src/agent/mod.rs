//! The agent: what it tells its observer, how it reassembles a streamed
//! response, and the state machine of a run.

pub mod events;
pub mod laws;
pub mod model;
pub mod request;
pub mod run;
pub mod turn;
