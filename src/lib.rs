//! A grid engine for a two-dimensional compressible-flow toy model.
//!
//! The engine is generic over the scalar type of a cell: it owns the
//! structure of the computation (which cells a tick reads and writes, the
//! wall conditions, the inlet band, the obstacle masks, the tick order),
//! while the per-cell arithmetic is supplied by the caller as closures.

mod boundary;
mod driver;
mod flux;
mod grid;
mod obstacle;
mod source;

pub use obstacle::{create_airfoil, create_solid_object, in_block, in_disc, is_mask, DISC_MAX_CELLS};
pub use grid::{
    add_perturbation, at, cell_at, grid_height, grid_width, in_grid, initialize_grid, is_grid,
    perturbed, seeded, well_formed, width_of, Cell, GridError, MIN_SIDE,
};
pub use flux::{calculate_fluxes, is_border, is_frozen, stepped, swept_cell};
pub use boundary::{apply_boundary_conditions, bounded_cell};
pub use source::{add_fluid_source, in_inlet, injected, inlet_cell, inlet_fed_twice, Inlet};
pub use driver::{cell_of_pixel, ticked, uniform_field_is_steady, InputEvent, Simulation};
