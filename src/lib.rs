//! Verified core of a SIP softphone: SDP negotiation and rewriting, RTP
//! framing and DTMF events, registration timing, call bookkeeping and the
//! decisions that drive the SIP and media tasks.

pub mod codec;
pub mod text;
pub mod sdp;
pub mod dtmf;
pub mod capture;
pub mod registration;
pub mod calls;
pub mod events;
pub mod routing;
pub mod transport;
pub mod flow;
pub mod controls;
pub mod devices;
pub mod client;
