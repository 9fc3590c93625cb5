//! Babel Protocol: signed protocol events, replay protection, consent
//! receipts, mock providers and the decision logic of the local node.

pub mod audit;
pub mod collaboration;
pub mod commons;
pub mod consent;
pub mod conversations;
pub mod crypto;
pub mod facilitation;
pub mod identity;
pub mod ids;
pub mod jobs;
pub mod json;
pub mod node;
pub mod payload;
pub mod protocol;
pub mod realtime;
pub mod repair;
pub mod storage;
pub mod text;
pub mod translation;
pub mod understanding;
