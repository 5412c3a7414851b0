//! Transitive conversions.
//!
//! A type is annotated with a path of types and a direction, as in
//! `#[transitive(into(B, C, D))]` on `A`. The path stands for one `From` or
//! `TryFrom` impl that chains the single-step conversions along it, or, with
//! `all( .. )`, for one impl per pair of neighbours in the path.
//!
//! The way from the annotation to the impl:
//!
//! - [`annotation`] splits the arguments of an attribute into annotations and
//!   tells the direction keyword from the list;
//! - [`items`] reads the items of a list, asking [`syntax`] what a type is;
//! - [`path`] validates the items and builds the [`model::ConversionSpec`];
//! - [`synth`] and [`pairs`] turn it into
//!   [`synth::GeneratedImplementation`]s;
//! - [`render`] writes them out;
//! - [`driver`] does all of this for every annotation of a declaration, each
//!   by itself, and [`process`] for one attribute under a known direction.
//!
//! [`laws`] states what holds of the whole, whatever the annotation.

pub mod annotation;
pub mod direction;
pub mod driver;
pub mod error;
pub mod items;
pub mod laws;
pub mod model;
pub mod pairs;
pub mod path;
pub mod process;
pub mod render;
pub mod synth;
pub mod syntax;
pub mod text;

pub use crate::direction::{Direction, DirectionKind};
pub use crate::driver::{transitive, transitive_impl, TransitiveInput};
pub use crate::error::ParseError;
pub use crate::model::{ConversionSpec, TypeRef};
pub use crate::synth::{ConversionStep, GeneratedImplementation};
