//! SQL script execution rules and table values: connection URLs, statement
//! classification, parameter binding, cell decoding, table algebra and HTML
//! rendering, each function with a machine-checked contract.

pub mod text;
pub mod url;
pub mod classify;
pub mod value;
pub mod decode;
pub mod bind;
pub mod table;
pub mod pipeline;
pub mod registry;
pub mod render;
