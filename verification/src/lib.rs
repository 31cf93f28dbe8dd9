//! A discrete-time simulator of fluid-filled thermal reservoirs joined by
//! directed conduits, with every state transition specified and verified.
//!
//! A [`simulation::Simulation`] owns nodes, connections and solar panels.
//! Its `tick` advances all of them by one step: heat is lost to the air,
//! panels heat their nodes, and fluid moves along the connections in the
//! order in which they were added.
//!
//! The simulator does not fix the number type of its quantities: any
//! [`scalar::Scalar`] will do. Each contract says which operations of the
//! scalar type produced a result, in which order and from which operands;
//! for a scalar type that computes exactly it also gives the result as a
//! formula, and [`simulation::reals`] proves what the formulas conserve.

pub mod resources;
pub mod scalar;
pub mod simulation;
