//! One import for the whole public surface of the library.

pub use crate::document::{field_names, FieldValue, FlatValue};
pub use crate::errors::IndexError;
pub use crate::fuzzy::FuzzyConfig;
pub use crate::registry::{
    AndCondition, Control, OrCondition, Surf, Surfer, SurferBuilder, SurferFieldTypes,
    SurferSchema,
};
pub use crate::utils::join;
