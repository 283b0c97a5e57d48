//! Weighted least-squares adjustment of a 2D graph of vertices connected by
//! relative-displacement observations (loop closure).
//!
//! Vertices are either fixed anchors or free unknowns.  The solver eliminates
//! the fixed vertices as boundary conditions, assembles the normal equations
//! as a sparse symmetric system, and solves the X and Y sub-problems with the
//! conjugate-gradient method.
//!
//! Every floating-point scalar is carried as its IEEE 754 binary64 bit
//! pattern in a `u64`.  The arithmetic itself happens in a handful of trusted
//! one-operation wrappers (see `fp`); everything around it — the index
//! reduction, the assembly of the system, the sparse storage, the solver's
//! control flow and the write-back — is verified against an exact
//! bit-for-bit functional model.

pub mod assemble;
pub mod cg;
pub mod fp;
pub mod index_map;
pub mod solver;
pub mod sparse;
