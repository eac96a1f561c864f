//! Tallies, per discourse topic and calendar day, how many posts mention the
//! topic, split by the stance of the community each post came from.
//!
//! A post is lowercased, classified by its community ([`stance`]), dated
//! ([`date`]) and matched against the keywords of every topic ([`matcher`]).
//! Each topic that the post references gets one reference recorded in its
//! counters ([`counters`]), which list their days in the order that
//! [`order`] defines. [`batch`] does this for a batch of posts,
//! [`engine`] and [`run`] for a whole run, and [`result`] holds what a run
//! yields. [`tally`] is the mathematical picture of the counters, over which
//! the contracts are stated, and [`laws`] proves what holds of the counting
//! rules in general.

pub mod text;
pub mod order;
pub mod stance;
pub mod date;
pub mod matcher;
pub mod tally;
pub mod counters;
pub mod topic;
pub mod post;
pub mod batch;
pub mod error;
pub mod result;
pub mod engine;
pub mod run;
pub mod laws;
