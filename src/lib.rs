//! A procedurally generated tile world and its terminal rendering.
//!
//! The world generators (`world` for the client's own worlds, `server` for
//! the map server's) are stated as spec functions, pass by pass, and the
//! executable generators are proved to lay down exactly those grids. Around
//! them: the start search (`start`), the client's map (`map`), the renderer
//! and ship sprites (`render`, `sprite`), input reconciliation and movement
//! (`input`, `player`), and the chat line editor (`chat`).

pub mod chat;
pub mod config;
pub mod direction;
pub mod grid;
pub mod hash;
pub mod input;
pub mod map;
pub mod player;
pub mod render;
pub mod rng;
pub mod server;
pub mod sprite;
pub mod start;
pub mod text;
pub mod tile;
pub mod world;
