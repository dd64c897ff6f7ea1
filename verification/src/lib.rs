//! A transpiler from JSX, optionally with TypeScript, to plain JavaScript.
//!
//! The work is done by passes over the characters of the source, none of
//! which builds a syntax tree:
//!
//! - `typescript` strips TypeScript syntax, or rejects it in plain
//!   JavaScript;
//! - `jsx_parser` rewrites JSX into calls of `__runtime.jsx`;
//! - `downlevel` rewrites optional chaining, nullish coalescing and
//!   block-scoped declarations for legacy engines;
//! - `modules` and `imports` rewrite ES modules as CommonJS and list the
//!   imports of a module.
//!
//! Each pass is given twice: as specification functions that say, for every
//! text, what the pass makes of it, and as executable code that is proved to
//! compute exactly that. `jsx_laws`, `typescript_laws`, `downlevel_laws` and
//! `progress` hold what is proved of the passes for all inputs. `api` chains
//! the passes as the options say.

pub mod api;
pub mod chars;
pub mod debug;
pub mod downlevel;
pub mod downlevel_laws;
pub mod error;
pub mod imports;
pub mod jsx_laws;
pub mod jsx_parser;
pub mod metadata;
pub mod modules;
pub mod options;
pub mod progress;
pub mod scanner;
pub mod source_map;
pub mod text;
pub mod typescript;
pub mod typescript_laws;

pub use api::{
    transpile_jsx_simple, transpile_jsx_with_metadata, transpile_jsx_with_options, version,
};
pub use debug::{DebugContext, DebugEntry, DebugLevel};
pub use downlevel::downlevel_for_jsc;
pub use error::TranspileError;
pub use metadata::{
    ImportBinding, ImportBindingType, ImportKind, ImportMetadata, StaticImportMetadata,
    TranspileMetadata, TranspileResult,
};
pub use modules::{extract_imports, transform_es6_modules};
pub use options::{TranspileOptions, TranspileTarget};
pub use scanner::ParseContext;
pub use typescript::{check_for_typescript_syntax, strip_typescript};
