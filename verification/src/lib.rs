//! A Metropolis light-transport renderer core: paths from a light to the
//! camera are sampled, measured, locally mutated and accepted or rejected so
//! that, in the limit, paths appear as often as they matter to the image.
//! Every real-valued quantity lives in saturating fixed point (see `fx`), so
//! the whole sampler is ordinary integer arithmetic with exact contracts.

pub mod fx;
pub mod vector;
pub mod color;
pub mod material;
pub mod rng;
pub mod camera;
pub mod scene;
pub mod mlt;
pub mod laws;
