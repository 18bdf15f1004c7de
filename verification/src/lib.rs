//! A Whitted-style recursive ray tracer with a verified geometry and
//! shading core.
//!
//! All arithmetic in the core is exact fixed-point arithmetic over
//! [`scalar::Scalar`]: an `i64` numerator over a fixed power-of-ten
//! denominator, with truncating multiplication and division and an
//! integer square root.  Every operation's result is pinned down
//! exactly by its contract, so the whole shading pipeline — matrix
//! algebra, ray/shape intersection, the refractive-index walk and the
//! depth-bounded recursive shader — is specified and proved over plain
//! integers.

pub mod scalar;
pub mod tuples;
pub mod matrices;
pub mod transformations;
pub mod colors;
pub mod rays;
pub mod materials;
pub mod patterns;
pub mod shapes;
pub mod intersections;
pub mod lighting;
pub mod world;
