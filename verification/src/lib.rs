//! Rules and bookkeeping of a rigid-body engine for convex solids in four
//! dimensions.
//!
//! The engine works in single precision, and its arithmetic rounds. This
//! library does none of it. It holds every number as its encoding and does
//! with numbers only what is exact: it stores them, reverses their signs,
//! compares them and chooses among them. Whatever is measured (a dot
//! product, a length, a rejection, the inverse of a matrix) is measured
//! by the caller and handed in; what follows from the measurements is
//! decided here, and that is what the contracts state.
//!
//! - `scalar`, `vector`, `ga`: numbers, vectors, matrices, bivectors and
//!   rotors as stored values.
//! - `physics`, `joint`, `contact`: the records of bodies, ball joints and
//!   contacts, and the manifold of the contacts of two bodies.
//! - `collider`, `simplex`, `portal`: convex hulls, and the rules of the
//!   ray cast and of the search for the overlap of two hulls.
//! - `constraints`: the joints and manifolds of a scene, by pairs of
//!   bodies.
//! - `mesh`, `mixtable`, `draw`: what the drawing of a scene takes.
//! - `actor`, `input`: the player's hand and wishes.

pub mod scalar;
pub mod vector;
pub mod ga;
pub mod physics;
pub mod mesh;
pub mod mixtable;
pub mod collider;
pub mod simplex;
pub mod portal;
pub mod contact;
pub mod joint;
pub mod constraints;
pub mod actor;
pub mod input;
pub mod draw;
