//! Procedural planet heightmaps.
//!
//! A planet's terrain is a scalar field over the sphere: a tree of operators
//! ([`field`]) over coherent-noise primitives, constants and fields of
//! craters ([`crater`]). Craters are scattered by a seeded bombardment
//! ([`bombard`]), and heights are turned into colours by a gradient
//! ([`gradient`]). Five planets come ready made ([`planets`]).
//!
//! All arithmetic is deterministic fixed point ([`fixed`], [`roots`],
//! [`power`], [`trig`]): the same inputs give the same bits on every
//! machine. Every function but the two that reach the random generator is
//! verified against its contract, and the laws that the library promises
//! are proved beside the functions they speak of.
//!
//! Two things come from outside. The coherent noise of the primitives is
//! computed by the caller, who hands [`field::evaluate`] a function from a
//! primitive and a point to a height; the contracts say what a field's
//! height is for whatever that function returns. The random words of the
//! bombardment come from a ChaCha12 generator; what is taken on trust of it
//! stands in [`random`].

pub mod bombard;
pub mod crater;
pub mod errors;
pub mod field;
pub mod fixed;
pub mod gradient;
pub mod planets;
pub mod power;
pub mod random;
pub mod roots;
pub mod smooth;
pub mod sphere;
pub mod trig;
pub mod vector;
