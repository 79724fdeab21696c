//! Verified core of the Obelisk SIP bridge: codec negotiation, SDP session
//! state, RTP port bookkeeping, audio track queueing and the call signaling
//! decisions that run between a SIP caller and a conference.

pub mod codec;
pub mod text;
pub mod net;
pub mod sdp_model;
pub mod outside;
pub mod sip_codec;
pub mod settings;
pub mod sdp;
pub mod sdp_parse;
pub mod sdp_write;
pub mod track;
pub mod signaling;
pub mod port_pool;
pub mod rtp;
pub mod sip;
pub mod dtmf;
pub mod update;
pub mod websocket;
pub mod http;
