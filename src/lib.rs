//! Parameterized SQL templates: annotated statements are compiled once into a
//! validated `Program` and rendered many times against caller-supplied values.

pub mod annotation;
pub mod bind;
pub mod cli;
pub mod context;
pub mod errors;
pub mod meta;
pub mod program;
pub mod render;
pub mod scan;
pub mod sql;
pub mod value;
pub mod var;
