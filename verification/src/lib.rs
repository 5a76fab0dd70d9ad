//! Turns container inspection records into an aligned table of the URLs at
//! which each container's services can be reached.

pub mod decode;
pub mod host;
pub mod report;
pub mod table;
pub mod text;
