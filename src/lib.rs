//! A server library for the Classic voxel-world multiplayer protocol (version 7):
//! the packet codec, the world store and its file format, the level transfer and
//! the connection state machine, each stated and proved with Verus.

pub mod codec;
pub mod config;
pub mod dmf_map;
pub mod map_builder;
pub mod clientbound;
pub mod serverbound;
pub mod player;
pub mod registry;
pub mod server;
pub mod resolver;
pub mod text;
