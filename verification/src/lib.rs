//! Verified core of a small Usenet (NNTP) service split into microservices:
//! the message types exchanged between services, the binary framing of
//! messages on the wire, the bookkeeping of pending calls on the client side,
//! the request handling of the group, state and file services, and the
//! gateway's line protocol as a state machine.

pub mod types;
pub mod frame;
pub mod client_state;
pub mod command;
pub mod text;
pub mod sessions;
pub mod articles;
pub mod groups;
pub mod gateway;
