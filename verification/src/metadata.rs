//! What is known of a module besides its code: the imports it makes.

use vstd::prelude::*;

verus! {

/// Where an import comes from.
#[derive(Debug, Clone, Copy, PartialEq, Eq, Structural)]
pub enum ImportKind {
    /// A module that the engine builds in.
    Builtin,
    /// A package that the host resolves itself.
    SpecialPackage,
    /// Any other module.
    Module,
}

/// How a name is bound by an import.
#[derive(Debug, Clone, Copy, PartialEq, Eq, Structural)]
pub enum ImportBindingType {
    Default,
    Named,
    Namespace,
}

/// One name that an import binds.
#[derive(Debug, Clone, PartialEq)]
pub struct ImportBinding {
    pub binding_type: ImportBindingType,
    pub name: String,
    pub alias: Option<String>,
}

/// One import statement.
#[derive(Debug, Clone, PartialEq)]
pub struct ImportMetadata {
    pub source: String,
    pub kind: ImportKind,
    pub bindings: Vec<ImportBinding>,
}

/// What was found in a module.
#[derive(Debug, Clone, PartialEq)]
pub struct TranspileMetadata {
    pub imports: Vec<ImportMetadata>,
    pub has_jsx: bool,
    pub has_dynamic_import: bool,
    pub version: String,
}

/// One import, for fetching modules ahead of time.
#[derive(Debug, Clone, PartialEq)]
pub struct StaticImportMetadata {
    pub module: String,
    /// The local names that the import binds.
    pub imported: Vec<String>,
    pub is_default: bool,
    pub is_namespace: bool,
    /// Whether the import is a call `import(...)`.
    pub is_lazy: bool,
}

/// The code of a module and what was found in its source.
#[derive(Debug, Clone)]
pub struct TranspileResult {
    pub code: String,
    pub metadata: TranspileMetadata,
}

/// `ImportBinding` with its texts as sequences.
pub struct BindingView {
    pub binding_type: ImportBindingType,
    pub name: Seq<char>,
    pub alias: Option<Seq<char>>,
}

/// `ImportMetadata` with its texts as sequences.
pub struct ImportView {
    pub source: Seq<char>,
    pub kind: ImportKind,
    pub bindings: Seq<BindingView>,
}

/// `StaticImportMetadata` with its texts as sequences.
pub struct StaticImportView {
    pub module: Seq<char>,
    pub imported: Seq<Seq<char>>,
    pub is_default: bool,
    pub is_namespace: bool,
    pub is_lazy: bool,
}

/// `TranspileMetadata` with its texts as sequences.
pub struct MetadataView {
    pub imports: Seq<ImportView>,
    pub has_jsx: bool,
    pub has_dynamic_import: bool,
    pub version: Seq<char>,
}

/// An optional text as an optional sequence.
pub open spec fn option_text(t: Option<String>) -> Option<Seq<char>> {
    match t {
        Some(s) => Some(s@),
        None => None,
    }
}

impl View for ImportBinding {
    type V = BindingView;

    open spec fn view(&self) -> BindingView {
        BindingView {
            binding_type: self.binding_type,
            name: self.name@,
            alias: option_text(self.alias),
        }
    }
}

/// The views of a list of bindings.
pub open spec fn binding_views(v: Seq<ImportBinding>) -> Seq<BindingView> {
    Seq::new(v.len(), |i: int| v[i]@)
}

impl View for ImportMetadata {
    type V = ImportView;

    open spec fn view(&self) -> ImportView {
        ImportView {
            source: self.source@,
            kind: self.kind,
            bindings: binding_views(self.bindings@),
        }
    }
}

/// The views of a list of imports.
pub open spec fn import_views(v: Seq<ImportMetadata>) -> Seq<ImportView> {
    Seq::new(v.len(), |i: int| v[i]@)
}

/// The views of a list of texts.
pub open spec fn string_views(v: Seq<String>) -> Seq<Seq<char>> {
    Seq::new(v.len(), |i: int| v[i]@)
}

impl View for StaticImportMetadata {
    type V = StaticImportView;

    open spec fn view(&self) -> StaticImportView {
        StaticImportView {
            module: self.module@,
            imported: string_views(self.imported@),
            is_default: self.is_default,
            is_namespace: self.is_namespace,
            is_lazy: self.is_lazy,
        }
    }
}

/// The views of a list of static imports.
pub open spec fn static_views(v: Seq<StaticImportMetadata>) -> Seq<StaticImportView> {
    Seq::new(v.len(), |i: int| v[i]@)
}

impl View for TranspileMetadata {
    type V = MetadataView;

    open spec fn view(&self) -> MetadataView {
        MetadataView {
            imports: import_views(self.imports@),
            has_jsx: self.has_jsx,
            has_dynamic_import: self.has_dynamic_import,
            version: self.version@,
        }
    }
}

pub proof fn lemma_binding_views_push(v: Seq<ImportBinding>, b: ImportBinding)
    ensures
        binding_views(v.push(b)) == binding_views(v).push(b@),
{
}

pub proof fn lemma_import_views_push(v: Seq<ImportMetadata>, m: ImportMetadata)
    ensures
        import_views(v.push(m)) == import_views(v).push(m@),
{
}

pub proof fn lemma_string_views_push(v: Seq<String>, s: String)
    ensures
        string_views(v.push(s)) == string_views(v).push(s@),
{
}

pub proof fn lemma_static_views_push(v: Seq<StaticImportMetadata>, m: StaticImportMetadata)
    ensures
        static_views(v.push(m)) == static_views(v).push(m@),
{
}

} // verus!
