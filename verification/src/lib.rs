//! Fuzzy printer selection and the decisions of a remote print submission.

pub mod ansi_colors;
pub mod bad_names;
pub mod error;
pub mod list;
pub mod lpr;
pub mod options;
pub mod range;
pub mod session;
pub mod submit;
pub mod text;

pub use error::{Error, ErrorClass};
pub use list::{fuzzy_compare, PrinterInput};
pub use options::{ColorMode, Opt, PrintOpt};
