//! Voxel-world spatial core: fixed-point geometry, chunked world storage,
//! coordinate mapping, collision and restitution, the player controller,
//! layered terrain generation and the raw save format.
//!
//! All lengths are fixed-point integers: one world unit is `geom::UNIT`
//! steps.

pub mod geom;
pub mod coordinates;
pub mod voxel;
pub mod collision;
pub mod player;
pub mod world_gen;
pub mod save;
pub mod game;
pub mod assets;
pub mod world;
pub mod particle;
pub mod mesh;
pub mod camera;
