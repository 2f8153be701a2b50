//! Float-free decisions of a small ray tracer: ordering of distances and roots,
//! closest-hit selection, the light subset of a scene and the per-light
//! shading decision. The floating-point geometry lives with the caller, who
//! hands these functions order keys and flags.
pub mod intersectable;
pub mod order;
pub mod rendering;
pub mod scene;
