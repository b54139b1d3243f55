//! Verified core of a honeycomb-lattice tight-binding pipeline: band grids,
//! isoenergy contour extraction, and filling-resolved aggregation.
//!
//! All physical quantities are carried in a saturating fixed-point arithmetic
//! (`fix::Fix`, scale 2^30) so that every computation has an exact,
//! machine-checked contract.  The transcendental inputs (Hamiltonian phase
//! factors, eigensolver output) are produced outside and handed in as plain
//! fixed-point values.
#![verifier::loop_isolation(false)]

pub mod cal_berry;
pub mod compare;
pub mod cpx;
pub mod diag;
pub mod dv2;
pub mod fix;
pub mod hamiltonian;
pub mod height_map;
pub mod honeycomb_grids;
pub mod matrix;
pub mod model;
pub mod setting;
pub mod tanzaku;
pub mod util;
pub mod vec2;
