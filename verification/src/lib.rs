//! Verified core of a 2D sprite-instancing render pipeline.
//!
//! Large populations of sprites that share one texture atlas are drawn with a
//! single instanced draw call per group. Each frame, per-entity state is
//! extracted into a packed binary instance array, uploaded into a persistent
//! capacity-growing buffer per group, and paired with a spritesheet binding to
//! produce exactly one draw item per group per view.
//!
//! GPU work itself (buffer allocation, writes, bind groups, pipeline
//! specialization) is not performed here: the library decides what to do and
//! emits explicit commands over plain handles, which the host render backend
//! executes. Float quantities (positions, scales) are carried as their IEEE
//! 754 bit patterns in `u32`, which is exactly what the wire format stores.

pub mod arena;
pub mod cache;
pub mod components;
pub mod draw;
pub mod extract;
pub mod frame;
pub mod gpu;
pub mod mesh;
pub mod pipeline;
pub mod prepare;
pub mod tile;
pub mod wire;
