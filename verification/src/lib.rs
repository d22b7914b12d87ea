//! Terrain height-field and kinematic flight-controller core of a
//! ship-combat game, verified with Verus.
//!
//! The two load-bearing components are [`height_map_data::HeightMapData`],
//! a min-pyramid over a rectangular world footprint answering bilinear
//! height queries and hierarchical ray-collision queries, and
//! [`ship_controller::ShipController`], the per-actor integrator that
//! turns per-frame commands into motion resolved against that field.
//! All world-space arithmetic uses the exact fixed-point model of
//! [`fixed_point`].

pub mod fixed_point;
pub mod game_data;
pub mod height_map_data;
pub mod ship_controller;
