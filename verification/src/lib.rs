//! A webhook-driven agent for a tick-based grid-world game, with its
//! state machine and grid rules verified.
//!
//! The board and the rule for displacing an occupant live in [`model`];
//! the agent's lifecycle — register once, start a game, ingest ticks —
//! and the decision step live in [`server`]; what is posted to the game
//! server and what each response means for the state live in
//! [`mediator`]. The HTTP transport around all of this is left to the
//! embedding application.

pub mod mediator;
pub mod model;
pub mod server;
