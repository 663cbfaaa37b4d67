//! Host-side logic of a damped wave simulation on a 256 x 256 height grid:
//! grid addressing, the damping field, the wave-step coefficients,
//! disturbance validation, the fixed-timestep clock and the ordered per-tick
//! command plan that drives the GPU kernels; and the layout of the mesh text
//! files that the scene loads.
pub mod clock;
pub mod damping;
pub mod disturbance;
pub mod grid;
pub mod mesh_format;
pub mod simulation;
pub mod wave;
