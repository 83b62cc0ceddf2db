//! Type imports: what an `@import(types: [...], from: {id: "..."})`
//! annotation names, and the lookup of the schema it imports from.
//!
//! A schema may import from a schema that imports in turn. The caller that
//! follows such a chain keeps an [`ImportPath`]: the subgraphs it is in the
//! middle of resolving. A reference to a subgraph that is already on the path
//! closes a cycle and is refused.

use crate::ast::{entry_value, find_entry, Value, ValueView};
use crate::schema::Schema;
use crate::text::{owned, str_eq};
use std::sync::Arc;
use vstd::prelude::*;
use vstd::string::StringExecFns;

verus! {

/// One imported type: either the string `"Thing"` or the object
/// `{name: "Thing", as: "Stuff"}`. The first form stands for
/// `{name: "Thing", as: "Thing"}`.
#[derive(Debug, PartialEq, Eq, Hash)]
pub struct ImportedType {
    /// The name of the type in the schema it comes from.
    pub name: String,
    /// The name under which it is imported: the alias, or the name again.
    pub alias: String,
    /// Whether an alias was written.
    pub explicit: bool,
}

/// The view of an [`ImportedType`].
pub struct ImportedTypeView {
    pub name: Seq<char>,
    pub alias: Seq<char>,
    pub explicit: bool,
}

impl View for ImportedType {
    type V = ImportedTypeView;

    open spec fn view(&self) -> ImportedTypeView {
        ImportedTypeView { name: self.name@, alias: self.alias@, explicit: self.explicit }
    }
}

/// The imported type that a value stands for: a string stands for the type
/// of that name, an object with the strings `name` and `as` for the type
/// `name` under the alias `as`, and nothing else stands for any.
pub open spec fn imported_type_of(value: ValueView) -> Option<ImportedTypeView> {
    match value {
        ValueView::String(name) => Some(ImportedTypeView { name, alias: name, explicit: false }),
        ValueView::Object(entries) => match (
            entry_value(entries, "name"@),
            entry_value(entries, "as"@),
        ) {
            (Some(ValueView::String(name)), Some(ValueView::String(alias))) => Some(
                ImportedTypeView { name, alias, explicit: true },
            ),
            _ => None,
        },
        _ => None,
    }
}

impl Clone for ImportedType {
    fn clone(&self) -> (r: Self)
        ensures
            r == *self,
    {
        ImportedType {
            name: self.name.clone(),
            alias: self.alias.clone(),
            explicit: self.explicit,
        }
    }
}

impl ImportedType {
    /// Reads an imported type from one entry of the `types` list.
    pub fn parse(type_import: &Value) -> (r: Option<ImportedType>)
        ensures
            match r {
                Some(imported) => imported_type_of(type_import@) == Some(imported@),
                None => imported_type_of(type_import@) is None,
            },
    {
        match type_import {
            Value::String(name) => Some(
                ImportedType { name: name.clone(), alias: name.clone(), explicit: false },
            ),
            Value::Object(_) => {
                let entries = type_import.as_object().unwrap();
                let name = match find_entry(entries, "name") {
                    Some(value) => match value.as_str() {
                        Some(name) => name,
                        None => { return None; },
                    },
                    None => { return None; },
                };
                let alias = match find_entry(entries, "as") {
                    Some(value) => match value.as_str() {
                        Some(alias) => alias,
                        None => { return None; },
                    },
                    None => { return None; },
                };
                Some(ImportedType { name: owned(name), alias: owned(alias), explicit: true })
            },
            _ => None,
        }
    }
}

/// A reference to the schema of another subgraph, by the id of its
/// deployment.
#[derive(Debug, PartialEq, Eq, Hash)]
pub struct SchemaReference {
    pub subgraph: String,
}

impl View for SchemaReference {
    type V = Seq<char>;

    open spec fn view(&self) -> Seq<char> {
        self.subgraph@
    }
}

/// The deployment that a value refers to: the string `id` of an object.
pub open spec fn schema_reference_of(value: ValueView) -> Option<Seq<char>> {
    match value {
        ValueView::Object(entries) => match entry_value(entries, "id"@) {
            Some(ValueView::String(id)) => Some(id),
            _ => None,
        },
        _ => None,
    }
}

impl Clone for SchemaReference {
    fn clone(&self) -> (r: Self)
        ensures
            r == *self,
    {
        SchemaReference { subgraph: self.subgraph.clone() }
    }
}

/// Why the schema behind a reference could not be had.
#[derive(Debug, PartialEq, Eq)]
pub enum SchemaImportError {
    /// No schema is registered for the referenced deployment.
    ImportedSchemaNotFound(SchemaReference),
    /// The referenced deployment is known, but was never deployed.
    ImportedSubgraphNotFound(SchemaReference),
    /// The reference leads back to a subgraph that is being resolved.
    ImportCycle(SchemaReference),
}

impl Clone for SchemaImportError {
    fn clone(&self) -> (r: Self)
        ensures
            r == *self,
    {
        match self {
            SchemaImportError::ImportedSchemaNotFound(reference) => {
                SchemaImportError::ImportedSchemaNotFound(reference.clone())
            },
            SchemaImportError::ImportedSubgraphNotFound(reference) => {
                SchemaImportError::ImportedSubgraphNotFound(reference.clone())
            },
            SchemaImportError::ImportCycle(reference) => SchemaImportError::ImportCycle(
                reference.clone(),
            ),
        }
    }
}

impl SchemaImportError {
    /// The reference that could not be resolved.
    pub open spec fn reference(self) -> SchemaReference {
        match self {
            SchemaImportError::ImportedSchemaNotFound(reference) => reference,
            SchemaImportError::ImportedSubgraphNotFound(reference) => reference,
            SchemaImportError::ImportCycle(reference) => reference,
        }
    }

    /// The error in words.
    pub open spec fn message(self) -> Seq<char> {
        match self {
            SchemaImportError::ImportedSchemaNotFound(reference) => {
                "Schema for imported subgraph `"@ + reference@ + "` was not found"@
            },
            SchemaImportError::ImportedSubgraphNotFound(reference) => {
                "Subgraph for imported schema `"@ + reference@ + "` is not deployed"@
            },
            SchemaImportError::ImportCycle(reference) => "Import of subgraph `"@ + reference@
                + "` closes a cycle"@,
        }
    }

    /// The error in words.
    pub fn to_string(&self) -> (message: String)
        ensures
            message@ == self.message(),
    {
        match self {
            SchemaImportError::ImportedSchemaNotFound(reference) => String::from_str(
                "Schema for imported subgraph `",
            ).concat(reference.subgraph.as_str()).concat("` was not found"),
            SchemaImportError::ImportedSubgraphNotFound(reference) => String::from_str(
                "Subgraph for imported schema `",
            ).concat(reference.subgraph.as_str()).concat("` is not deployed"),
            SchemaImportError::ImportCycle(reference) => String::from_str(
                "Import of subgraph `",
            ).concat(reference.subgraph.as_str()).concat("` closes a cycle"),
        }
    }
}

/// Why a store has no schema to give for a deployment.
#[derive(Clone, Copy, Debug, PartialEq, Eq)]
pub enum StoreLookupError {
    /// The store has no entry for the deployment.
    NoEntry,
    /// The store knows the deployment, but holds no deployed schema for it.
    NotDeployed,
}

/// What a store must offer for imports to be resolved against it: the lookup
/// of the schema that is active for a deployment.
pub trait SubgraphStore {
    /// The schema of the deployment `id`.
    fn input_schema(&self, id: &String) -> Result<Arc<Schema>, StoreLookupError>;
}

/// What resolving `reference` comes to, given what the store answered: the
/// schema it found, or the error that says which of the two was missing.
pub open spec fn resolution(
    reference: SchemaReference,
    found: Result<Arc<Schema>, StoreLookupError>,
) -> Result<Arc<Schema>, SchemaImportError> {
    match found {
        Ok(schema) => Ok(schema),
        Err(StoreLookupError::NoEntry) => Err(SchemaImportError::ImportedSchemaNotFound(reference)),
        Err(StoreLookupError::NotDeployed) => Err(
            SchemaImportError::ImportedSubgraphNotFound(reference),
        ),
    }
}

impl SchemaReference {
    /// A reference to the deployment `subgraph`.
    pub fn new(subgraph: String) -> (r: Self)
        ensures
            r.subgraph == subgraph,
    {
        SchemaReference { subgraph }
    }

    /// The id of the referenced deployment.
    pub fn to_string(&self) -> (id: String)
        ensures
            id@ == self@,
    {
        self.subgraph.clone()
    }

    /// Reads a reference from the `from` argument of an import.
    pub fn parse(value: &Value) -> (r: Option<SchemaReference>)
        ensures
            match r {
                Some(reference) => schema_reference_of(value@) == Some(reference@),
                None => schema_reference_of(value@) is None,
            },
    {
        match value.as_object() {
            Some(entries) => match find_entry(entries, "id") {
                Some(id) => match id.as_str() {
                    Some(id) => Some(SchemaReference::new(owned(id))),
                    None => None,
                },
                None => None,
            },
            None => None,
        }
    }

    /// Turns the answer of a store into the outcome of the resolution.
    pub fn resolved(&self, found: Result<Arc<Schema>, StoreLookupError>) -> (r: Result<
        Arc<Schema>,
        SchemaImportError,
    >)
        ensures
            r == resolution(*self, found),
    {
        match found {
            Ok(schema) => Ok(schema),
            Err(StoreLookupError::NoEntry) => Err(
                SchemaImportError::ImportedSchemaNotFound(self.clone()),
            ),
            Err(StoreLookupError::NotDeployed) => Err(
                SchemaImportError::ImportedSubgraphNotFound(self.clone()),
            ),
        }
    }

    /// Looks the referenced deployment up in the store. The store is asked
    /// once, for the id of the reference, and the outcome is what
    /// [`resolution`] makes of its answer.
    pub fn resolve<S: SubgraphStore>(&self, store: Arc<S>) -> (r: Result<
        Arc<Schema>,
        SchemaImportError,
    >)
        ensures
            exists|found: Result<Arc<Schema>, StoreLookupError>|
                call_ensures(S::input_schema, (&*store, &self.subgraph), found) && r
                    == #[trigger] resolution(*self, found),
    {
        let found = store.input_schema(&self.subgraph);
        self.resolved(found)
    }
}

/// The subgraphs that are being resolved, from the outermost in.
#[derive(Debug, PartialEq, Eq)]
pub struct ImportPath {
    pub subgraphs: Vec<String>,
}

impl View for ImportPath {
    type V = Seq<Seq<char>>;

    open spec fn view(&self) -> Seq<Seq<char>> {
        Seq::new(self.subgraphs@.len(), |i: int| self.subgraphs@[i]@)
    }
}

impl ImportPath {
    /// The empty path: nothing is being resolved.
    pub fn new() -> (r: Self)
        ensures
            r@ == Seq::<Seq<char>>::empty(),
    {
        let r = ImportPath { subgraphs: Vec::new() };
        assert(r@ =~= Seq::<Seq<char>>::empty());
        r
    }

    /// Whether the referenced subgraph is being resolved.
    pub fn contains(&self, reference: &SchemaReference) -> (on_path: bool)
        ensures
            on_path == self@.contains(reference@),
    {
        let mut i: usize = 0;
        while i < self.subgraphs.len()
            invariant
                i <= self.subgraphs.len(),
                forall|j: int| 0 <= j < i ==> self@[j] != reference@,
            decreases self.subgraphs.len() - i,
        {
            if str_eq(self.subgraphs[i].as_str(), reference.subgraph.as_str()) {
                assert(self@[i as int] == reference@);
                return true;
            }
            i += 1;
        }
        false
    }

    /// Steps into the referenced subgraph, unless it is being resolved
    /// already: then the path stays as it is and the cycle is reported.
    pub fn enter(&mut self, reference: &SchemaReference) -> (r: Result<(), SchemaImportError>)
        ensures
            match r {
                Ok(()) => !old(self)@.contains(reference@) && final(self)@ == old(self)@.push(
                    reference@,
                ),
                Err(e) => old(self)@.contains(reference@) && final(self)@ == old(self)@ && e
                    == SchemaImportError::ImportCycle(*reference),
            },
            old(self)@.no_duplicates() ==> final(self)@.no_duplicates(),
    {
        if self.contains(reference) {
            Err(SchemaImportError::ImportCycle(reference.clone()))
        } else {
            self.subgraphs.push(reference.subgraph.clone());
            assert(self@ =~= old(self)@.push(reference@));
            Ok(())
        }
    }

    /// Steps out of the subgraph that was entered last.
    pub fn leave(&mut self)
        ensures
            old(self)@.len() > 0 ==> final(self)@ == old(self)@.drop_last(),
            old(self)@.len() == 0 ==> final(self)@ == old(self)@,
            old(self)@.no_duplicates() ==> final(self)@.no_duplicates(),
    {
        let dropped = self.subgraphs.pop();
        if dropped.is_some() {
            assert(self@ =~= old(self)@.drop_last());
        } else {
            assert(self@ =~= old(self)@);
        }
    }

    /// Resolves a reference met while resolving the subgraphs on the path:
    /// a reference to one of them is refused as a cycle, without asking the
    /// store; any other is resolved as [`SchemaReference::resolve`] does.
    pub fn resolve<S: SubgraphStore>(&self, reference: &SchemaReference, store: Arc<S>) -> (r:
        Result<Arc<Schema>, SchemaImportError>)
        ensures
            self@.contains(reference@) ==> r == Err::<Arc<Schema>, SchemaImportError>(
                SchemaImportError::ImportCycle(*reference),
            ),
            !self@.contains(reference@) ==> exists|found: Result<Arc<Schema>, StoreLookupError>|
                call_ensures(S::input_schema, (&*store, &reference.subgraph), found) && r
                    == #[trigger] resolution(*reference, found),
    {
        if self.contains(reference) {
            Err(SchemaImportError::ImportCycle(reference.clone()))
        } else {
            reference.resolve(store)
        }
    }
}

} // verus!
