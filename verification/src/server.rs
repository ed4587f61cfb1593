//! The server side: what it decides for its peers and its operator.

pub mod boot;
pub mod chunks;
pub mod invitation_laws;
pub mod invitations;
pub mod listener;
pub mod listener_laws;
pub mod owner_keys;
pub mod payload_laws;
pub mod peers;
pub mod workflow_laws;
pub mod workflows;
