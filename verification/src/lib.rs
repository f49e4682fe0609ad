//! Rewrites Handlebars-style templates into Sline syntax.
//!
//! Literal text is copied through untouched. Each `{{…}}` or `{{{…}}}` tag is
//! classified and rewritten in place, while a stack of open `each` blocks
//! resolves `this` and `./` references and a list of diagnostics records what
//! could not be converted cleanly.

pub mod driver;
pub mod expr;
pub mod laws;
pub mod model;
pub mod scan;
pub mod tag;
pub mod text;

pub use driver::transpile;
pub use expr::transform_expression;
pub use model::{has_error, BlockContext, Diagnostic, Level, Options};
pub use scan::{find_block_close, BlockClose};
pub use tag::{parse_each, transform_tag};
pub use text::to_chars;
