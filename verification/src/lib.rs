//! The decisions of a voter in GRANDPA.
//!
//! A voter moves from round to round, takes in commits and catch ups from other
//! nodes, and finalizes blocks. Nothing here waits. What has to be waited for is
//! handed out as an [`action::Action`], and the voter goes on when it is told how
//! the action ended.

pub mod action;
pub mod answers;
pub mod block;
pub mod callback;
pub mod catch_up;
pub mod communication;
pub mod environment;
pub mod laws;
pub mod messages;
pub mod outcome;
pub mod voter;
pub mod voter_set;
