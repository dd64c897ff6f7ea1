//! The options of a transpilation.

use vstd::prelude::*;
use crate::debug::DebugLevel;

verus! {

/// The engine that the output is for.
#[derive(Debug, Clone, Copy, PartialEq, Eq, Structural)]
pub enum TranspileTarget {
    /// A modern browser: newer syntax stays.
    Web,
    /// A legacy engine: newer syntax is rewritten.
    Android,
}

/// What a transpilation is to do. Only `is_typescript` and `target` change
/// the output of this library; the other fields are for a backend that is
/// put in its place, and `debug_level` is for diagnostics.
#[derive(Debug, Clone)]
pub struct TranspileOptions {
    /// Strip TypeScript syntax first; if unset, TypeScript syntax is an
    /// error.
    pub is_typescript: bool,
    pub target: TranspileTarget,
    /// The name of the source, for diagnostics and source maps.
    pub filename: Option<String>,
    pub to_commonjs: bool,
    pub source_maps: bool,
    pub inline_source_map: bool,
    pub compat_for_jsc: bool,
    pub debug_level: DebugLevel,
}

impl Default for TranspileOptions {
    fn default() -> (r: TranspileOptions)
        ensures
            !r.is_typescript,
            r.target == TranspileTarget::Web,
            r.filename is None,
            !r.to_commonjs,
            !r.source_maps,
            !r.inline_source_map,
            !r.compat_for_jsc,
            r.debug_level == DebugLevel::Off,
    {
        TranspileOptions {
            is_typescript: false,
            target: TranspileTarget::Web,
            filename: None,
            to_commonjs: false,
            source_maps: false,
            inline_source_map: false,
            compat_for_jsc: false,
            debug_level: DebugLevel::Off,
        }
    }
}

impl Default for TranspileTarget {
    fn default() -> (r: TranspileTarget)
        ensures
            r == TranspileTarget::Web,
    {
        TranspileTarget::Web
    }
}

} // verus!
