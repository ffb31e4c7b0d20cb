//! Construction of image-delivery URLs and responsive-image `srcset`
//! attribute values.
//!
//! Callers supply a domain, an image path and a list of transformation
//! parameters; the crate renders a fully formed absolute URL and, through
//! the srcset engine, a comma/newline separated list of URL candidates
//! ready for an HTML `srcset` attribute.

pub mod constants;
pub mod errors;
pub mod query;
pub mod source_set;
pub mod text;
pub mod url;
pub mod validate;

pub use crate::constants::lib_version;
pub use crate::errors::Error;
pub use crate::source_set::{Action, Config, SourceSet};
pub use crate::url::{Scheme, Url};
