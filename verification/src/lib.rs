//! A verified checkers core: board geometry, occupancy state, move rules and
//! a turn state machine, together with two small verified utilities (a
//! three-way enum translation table and an insertion-based string sorter).

pub mod board;
pub mod data_mapping;
pub mod engine;
pub mod geometry;
pub mod picker;
pub mod rules;
pub mod string_sorting;
