//! Core of a voxel-world micro-engine.
//!
//! The library stores a sparse grid of typed blocks in fixed-size chunks,
//! rasterizes visible block faces into a flat vertex buffer, advances an
//! entity's kinematic state each tick, and resolves collisions between a
//! moving entity and static world geometry with swept axis-aligned
//! bounding-box queries and wall sliding.
//!
//! All geometry is carried in fixed-point coordinates: one world unit is
//! `geom::SCALE` raw steps. This keeps every computation exact, so each
//! operation carries a contract that pins its result down completely.
//! A rendering or windowing layer around the library converts the raw
//! values to floating point when it uploads them.

pub mod block;
pub mod block_texture;
pub mod buffer_builder;
pub mod camera_computer;
pub mod chunk;
pub mod components;
pub mod geom;
pub mod image_manager;
pub mod mymath;
pub mod player;
pub mod ray;
pub mod systems;
pub mod world;
