//! Greatest common divisors over every fixed-width integer kind.
//!
//! Two algorithms are provided: the classical Euclidean remainder
//! algorithm and the binary (Stein's) algorithm, which uses only
//! halving, doubling, subtraction and comparisons.  Both are proved to
//! return the same, mathematically defined value for every pair of
//! inputs of every supported kind, including the two's-complement
//! minimum, whose magnitude is not representable in its own kind.

pub mod conformance;
pub mod divisibility;
pub mod engine;
pub mod gcd_math;
pub mod kinds;

pub use divisibility::divides;
pub use gcd_math::gcd_full;
pub use gcd_math::gcd_nat;
pub use kinds::binary_gcd;
pub use kinds::gcd;
pub use kinds::HasGCD;
