//! Verified core of an interactive ray tracer: how CSG nodes combine their
//! children, the scoped transformation stack, pixel buffers and frame
//! assembly, the sub-pixel cache and quad-tree walk of adaptive
//! supersampling, and the bookkeeping of the scene-language interpreter
//! (typing rules, constructor arguments, scopes and calls).

pub mod antialias;
pub mod arguments;
pub mod context;
pub mod csg;
pub mod frame;
pub mod pixmap;
pub mod ray;
pub mod scene;
pub mod text;
pub mod transformation;
