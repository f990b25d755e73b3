//! The property keys and cells of the object model.

pub use crate::bultins::object_property::{PropCell, PropKey, ToProperyKey};
