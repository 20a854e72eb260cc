//! Decryption of RPG Maker MV asset files.
//!
//! A game tree hides a 16-byte key as a hex string in a `System.json`
//! configuration file; each asset file (`rpgmvp`, `rpgmvm`, `rpgmvo`)
//! carries a 16-byte fake header followed by 16 bytes XOR-masked with the
//! key. The library locates and decodes the key, picks the asset files
//! out of a directory listing, undoes the masking, and names and places
//! each output file.

pub mod assets;
pub mod config;
pub mod decrypt;
pub mod hexkey;
pub mod locator;
pub mod output;
pub mod paths;
