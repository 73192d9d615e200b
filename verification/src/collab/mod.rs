//! Real-time collaboration: room membership, message routing and the yjs
//! wire protocol.

pub mod protocol;
pub mod room;
