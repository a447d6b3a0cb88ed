//! Combat telemetry for a multiplayer game: reassembly of framed messages from
//! captured TCP payloads, a binary packet reader, and the model of players,
//! encounters and damage that decoded events are folded into.

pub mod definitions;
pub mod opcode;
pub mod parser;
pub mod capture;
pub mod ordered;
pub mod packet;
pub mod meter;
pub mod oodle;
pub mod socket;
pub mod ui;
pub mod encode;
pub mod schema;
pub mod events;
pub mod dispatch;
