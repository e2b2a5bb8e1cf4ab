//! Decision core of a forward HTTP/HTTPS proxy: the access-control gate, the
//! request dispatcher, the egress address pool and the tunnel-establishment
//! state machine, each with a machine-checked contract.

pub mod text;
pub mod digest;
pub mod base64;
pub mod request;
pub mod target;
pub mod gate;
pub mod egress;
pub mod tunnel;
pub mod dispatch;
pub mod laws;
