//! Decision logic of a transparent UDP relay.
//!
//! The relay accepts datagrams from clients, forwards each one unchanged to a
//! single upstream peer, waits for the upstream's answer and hands that answer
//! back to the client the request came from. This crate holds everything the
//! relay decides: how many bytes of a datagram are kept, which socket
//! operation comes next, where a reply is sent, and which failures end the
//! relay. It performs no I/O itself. A driver owns the sockets, carries out
//! each [`relay::Action`] and reports what happened as a [`relay::Event`].
//!
//! Every public function carries a contract over a mathematical model of the
//! relay, and the properties that relate several steps (replies are returned
//! byte for byte, to the right client, in arrival order) are proved in
//! [`trace`].

pub mod address;
pub mod datagram;
pub mod error;
pub mod relay;
pub mod startup;
pub mod trace;
