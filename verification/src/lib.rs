//! Verified core of an audio mirror: one captured source fanned out to many
//! destinations, each kept on its own clock.


pub mod channels;
pub mod command;
pub mod convert;
pub mod device;
pub mod engine;
pub mod ipc;
pub mod meter;
pub mod model;
pub mod render;
pub mod source;
pub mod ring;
pub mod settings;
pub mod sink;

