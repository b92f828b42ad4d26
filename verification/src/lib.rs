//! A lighthouse of the mesh: a peer of one workspace that is always there. It
//! stores the workspace's signed state, merges what other peers bring, takes in
//! the messages that visitors leave, and files them as leads.
//!
//! The crate decides. What it needs of the outside, a signature, a verdict of the
//! workspace's authority or a write to the disk, it asks for by value, and it is
//! told the outcome by value.

pub mod assessment;
pub mod authoring;
pub mod captcha;
pub mod chat;
pub mod clock;
pub mod codec;
pub mod document;
pub mod history;
pub mod host;
pub mod intake;
pub mod join;
pub mod json;
pub mod lead;
pub mod node;
pub mod questions;
pub mod records;
pub mod state;
pub mod store;
pub mod text;

pub use clock::now_ms;
pub use host::MatchLighthouseHost;
pub use lead::LeadDraft;
pub use state::MatchLighthouseState;
pub use store::MatchScopeStore;
