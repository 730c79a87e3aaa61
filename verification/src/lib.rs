//! A verified model of the tunnel simulation used to test a client, a gateway and a
//! TURN relay against a reference state machine.
//!
//! The library holds the decisions of the simulation: the reference state machine, how
//! packets are routed between the simulated components, how the relay forwards data,
//! and the checks made after every transition. Driving the real components is left to
//! the program around it.
pub mod net;
pub mod sample;
pub mod resource;
pub mod table;
pub mod text;
pub mod node;
pub mod relay;
pub mod reference;
pub mod setup;
pub mod harness;
pub mod echo;
pub mod portal;
