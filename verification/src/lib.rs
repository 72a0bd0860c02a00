//! Core of a small turn-based strategy game on a triangular grid.
//!
//! Two players grow "shapes" made of triangular cells, move them between a
//! reserve buffer and the active zone, grow them by attaching single-cell
//! units, feed them to farm plants that produce new shapes each turn, and
//! attack each other's shapes and plants.  This crate holds the verified
//! game core: the entity model, the triangular-grid geometry, the action
//! resolver, the scripted opponent, and the pointer-driven intent layer.
//! Rendering, asset loading and the window loop are external collaborators
//! that read the model and feed events in.

pub mod controller;
pub mod enemy_ai;
pub mod ids;
pub mod logic;
pub mod model;
pub mod storage;
pub mod triangular;
