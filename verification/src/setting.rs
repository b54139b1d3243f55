//! Calculation settings, fixed once per run and passed by value everywhere.

use vstd::prelude::*;
use crate::fix::Fix;

verus! {

#[derive(Clone, Copy, PartialEq, Eq, Structural, Debug)]
pub struct CalcSetting {
    /// Mesh resolution along the first reciprocal axis.
    pub mesh_kx: usize,
    /// Mesh resolution along the second reciprocal axis.
    pub mesh_ky: usize,
    /// Number of discretized energy levels of the height map.
    pub height_map_div: usize,
    /// Degeneracy cutoff for the Kubo denominators.
    pub threshold_berry: Fix,
    /// Tiles per axis of the parallel partition.
    pub main_mesh: usize,
}

impl CalcSetting {
    /// The configuration ranges the pipeline is specified for.
    pub open spec fn wf(self) -> bool {
        &&& 1 <= self.mesh_kx <= 0x10000
    &&& 1 <= self.mesh_ky <= 0x10000
    &&& 1 <= self.height_map_div <= 0x10000
    &&& 1 <= self.main_mesh <= 0x10000
    &&& self.threshold_berry.raw >= 0
    }

    pub fn meshes(&self) -> (r: (usize, usize))
        ensures
            r.0 == self.mesh_kx,
            r.1 == self.mesh_ky,
    {
        (self.mesh_kx, self.mesh_ky)
    }
}

} // verus!
