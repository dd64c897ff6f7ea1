//! The entry points of the transpiler.
//!
//! A source goes through up to three passes: TypeScript is stripped (or, in
//! plain JavaScript, rejected), JSX is rewritten into calls of the runtime
//! factory, and for a legacy engine newer syntax is rewritten. Each pass is a
//! function from text to text or error; the first error ends the call.

use vstd::prelude::*;
use crate::downlevel::{downlevel_chars, downleveled};
use crate::error::{ErrorView, message_text};
use crate::jsx_parser::{transpile_chars, transpiled};
use crate::metadata::{MetadataView, TranspileMetadata, TranspileResult};
use crate::modules::{extract_imports_with_bindings, imports_with_bindings};
use crate::options::{TranspileOptions, TranspileTarget};
use crate::text::{chars_of, has_text, includes, string_of};

verus! {

/// What a transpilation makes of `source`: the JSX pass, then, for a legacy
/// engine, the rewriting of newer syntax.
pub open spec fn pipeline(source: Seq<char>, ts: bool, legacy: bool) -> Result<
    Seq<char>,
    ErrorView,
> {
    match transpiled(source, ts) {
        Err(e) => Err(e),
        Ok(t) => Ok(
            if legacy {
                downleveled(t)
            } else {
                t
            },
        ),
    }
}

/// Whether the options ask for output that a legacy engine can run.
pub open spec fn is_legacy(opts: &TranspileOptions) -> bool {
    opts.target == TranspileTarget::Android
}

/// What is found in `source`: its imports with their bindings, whether it
/// holds both `<` and `>`, and whether it holds a call `import(`.
pub open spec fn metadata_of(source: Seq<char>) -> MetadataView {
    MetadataView {
        imports: imports_with_bindings(source),
        has_jsx: includes(source, "<"@) && includes(source, ">"@),
        has_dynamic_import: includes(source, "import("@),
        version: "0.1.0"@,
    }
}

/// The version of this library.
pub fn version() -> (r: &'static str)
    ensures
        r@ == "0.1.0"@,
{
    "0.1.0"
}

/// Transpiles plain JavaScript with JSX for a modern engine.
pub fn transpile_jsx_simple(source: &str) -> (r: Result<String, String>)
    ensures
        match pipeline(source@, false, false) {
            Ok(t) => r is Ok && r->Ok_0@ == t,
            Err(e) => r is Err && r->Err_0@ == message_text(e),
        },
{
    transpile_jsx_with_options(source, &TranspileOptions::default())
}

/// Transpiles `source` as the options say. On success the result is the
/// whole output; on failure it is the message of the first error, and there
/// is no output.
pub fn transpile_jsx_with_options(source: &str, opts: &TranspileOptions) -> (r: Result<
    String,
    String,
>)
    ensures
        match pipeline(source@, opts.is_typescript, is_legacy(opts)) {
            Ok(t) => r is Ok && r->Ok_0@ == t,
            Err(e) => r is Err && r->Err_0@ == message_text(e),
        },
{
    match transpile_chars(&chars_of(source), opts.is_typescript) {
        Err(e) => Err(e.message()),
        Ok(code) => {
            match opts.target {
                TranspileTarget::Android => Ok(string_of(&downlevel_chars(code))),
                TranspileTarget::Web => Ok(string_of(&code)),
            }
        },
    }
}

/// Transpiles `source` for a modern engine and says what was found in it.
/// The name of the file is not used.
pub fn transpile_jsx_with_metadata(
    source: &str,
    _filename: Option<&str>,
    is_typescript: bool,
) -> (r: Result<TranspileResult, String>)
    ensures
        match pipeline(source@, is_typescript, false) {
            Ok(t) => r is Ok && r->Ok_0.code@ == t && r->Ok_0.metadata@ == metadata_of(source@),
            Err(e) => r is Err && r->Err_0@ == message_text(e),
        },
{
    let src = chars_of(source);
    let has_jsx = has_text(&src, "<") && has_text(&src, ">");
    let has_dynamic_import = has_text(&src, "import(");
    let code = match transpile_chars(&src, is_typescript) {
        Err(e) => {
            return Err(e.message());
        },
        Ok(code) => string_of(&code),
    };
    let imports = extract_imports_with_bindings(source);
    Ok(
        TranspileResult {
            code,
            metadata: TranspileMetadata {
                imports,
                has_jsx,
                has_dynamic_import,
                version: string_of(&chars_of(version())),
            },
        },
    )
}

} // verus!
