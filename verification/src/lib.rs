//! Quote engine for 3D printing jobs: G-code metadata extraction, material
//! catalog, quote assembly and the request rules of the HTTP front end.
pub mod engine;
pub mod error;
pub mod float_text;
pub mod gcode;
pub mod material;
pub mod model;
pub mod orca;
pub mod pricing;
pub mod quote;
pub mod text;
pub mod upload;

pub use crate::engine::PriceEngine;
pub use crate::error::EngineError;
pub use crate::material::{MaterialCatalog, MaterialProfile};
pub use crate::model::ModelKind;
pub use crate::quote::{QuoteBreakdown, QuoteInput, QuoteOutput};
