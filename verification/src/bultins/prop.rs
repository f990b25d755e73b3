//! The property attribute bits, shared with the object model.

pub use crate::bultins::object_property::PropFlag;
