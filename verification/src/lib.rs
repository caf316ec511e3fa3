//! Packaging of a game-world save directory: classification of world paths
//! into entries, the transforms applied to the save's tag-tree documents,
//! pruning of empty chunks from region containers, and the sinks the
//! results are written to.

pub mod chunk;
pub mod config;
pub mod entries;
pub mod level;
pub mod nbt;
pub mod packager;
pub mod path;
pub mod region;
pub mod scoreboard;
pub mod storage;
pub mod text;
