//! Core of a launch-service descriptor editor: a typed document model for
//! the flat property-list subset used by service descriptors, a line-oriented
//! textual transcoder for it, and the field-catalog / edit-session state
//! machine that turns typed attributes into editable text and back.

pub mod agents;
pub mod decode;
pub mod encode;
pub mod fields;
pub mod laws;
pub mod model;
pub mod session;
pub mod text;
