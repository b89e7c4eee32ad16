//! Core of a chat notification bot: module registry and scheduling decisions,
//! capability-routed trigger dispatch, and the shared liveness / error-rate
//! probe primitive. Network transports and the async runtime live outside this
//! crate; they hand plain values in and carry actions out.

pub mod bot;
pub mod down_detectors;
pub mod feeds;
pub mod github;
pub mod github_orgs;
pub mod github_repos;
pub mod hello;
pub mod help;
pub mod monitor;
pub mod ollama;
pub mod osc;
pub mod outscale_api_versions;
pub mod ping;
pub mod rng;
pub mod roll;
pub mod sched;
pub mod strutil;
pub mod timeutil;
pub mod triggers;
pub mod webex;
pub mod webpages;
