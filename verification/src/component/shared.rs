//! Shared data model for the import, export and reference descriptors that
//! the emission stage turns into concrete syntax.
use vstd::prelude::*;

verus! {

/// One imported binding, as it appears in an import statement.
#[derive(Debug, Clone, PartialEq, Eq, PartialOrd, Ord, Hash)]
pub enum ImportId {
    Named(String),
    NamedWithAlias(String, String),
    Default(String),
    Namespace(String),
}

/// An import the generated module needs: either well-known bindings from the
/// framework core, or an arbitrary import descriptor.
#[derive(Debug, Clone, PartialEq, Eq, PartialOrd, Ord, Hash)]
pub enum CommonImport {
    QwikCore(Vec<ImportId>),
    Import(Import),
}

impl CommonImport {
    /// The canonical import of the `qrl` helper from the framework core.
    pub fn qrl() -> (r: CommonImport)
        ensures
            r matches CommonImport::QwikCore(names) && names@.len() == 1
                && (names@[0] matches ImportId::Named(n) && n@ == "qrl"@),
    {
        CommonImport::QwikCore(vec![ImportId::Named(String::from_str("qrl"))])
    }
}

/// An export the generated module re-exports from the framework core.
#[derive(Debug, Clone, PartialEq, Eq, PartialOrd, Ord)]
pub enum CommonExport {
    BuilderIoQwik(String),
}

/// An import descriptor: the bindings to import and the module to import
/// them from, as a plain relative path.
#[derive(Debug, Clone, PartialEq, Eq, PartialOrd, Ord, Hash)]
pub struct Import {
    pub names: Vec<ImportId>,
    pub source: String,
}

impl Import {
    pub fn new(names: Vec<ImportId>, source: &str) -> (r: Import)
        ensures
            r.names@ == names@,
            r.source@ == source@,
    {
        Import { names, source: source.to_owned() }
    }
}

/// The name a reference carries.
pub open spec fn spec_reference_name(r: Reference) -> Seq<char> {
    match r {
        Reference::Variable(n) => n@,
    }
}

/// A reference to a binding that an extracted module must import.
#[derive(Debug, Clone, PartialEq, Eq, PartialOrd, Ord)]
pub enum Reference {
    Variable(String),
}

impl Reference {
    pub fn name(&self) -> (r: String)
        ensures
            r@ == spec_reference_name(*self),
    {
        match self {
            Reference::Variable(name) => name.clone(),
        }
    }

    /// Turns the reference into a named import from the given source module.
    pub fn into_import(&self, source: &str) -> (r: Import)
        ensures
            r.names@.len() == 1,
            r.names@[0] matches ImportId::Named(n) && n@ == spec_reference_name(*self),
            r.source@ == source@,
    {
        match self {
            Reference::Variable(name) => Import::new(
                vec![ImportId::Named(name.clone())],
                source,
            ),
        }
    }
}

/// The build flavor; it governs only the symbol-name format.
#[derive(Debug, Copy, Clone, PartialEq, Eq, PartialOrd, Ord)]
pub enum Target {
    Prod,
    Lib,
    Dev,
    Test,
}

} // verus!
