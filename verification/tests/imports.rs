use std::sync::Arc;
use subgraph_schema::ast::{Document, Value};
use subgraph_schema::import::{
    ImportPath, ImportedType, SchemaImportError, SchemaReference, StoreLookupError, SubgraphStore,
};
use subgraph_schema::schema::Schema;

fn s(text: &str) -> String {
    text.to_string()
}

/// A store that knows the deployments it was given, some of them without a
/// deployed schema.
struct FakeStore {
    deployments: Vec<(String, Option<Arc<Schema>>)>,
}

impl SubgraphStore for FakeStore {
    fn input_schema(&self, id: &String) -> Result<Arc<Schema>, StoreLookupError> {
        for (known, schema) in &self.deployments {
            if known == id {
                return match schema {
                    Some(schema) => Ok(schema.clone()),
                    None => Err(StoreLookupError::NotDeployed),
                };
            }
        }
        Err(StoreLookupError::NoEntry)
    }
}

fn empty_schema() -> Arc<Schema> {
    Arc::new(Schema::new(Document { definitions: vec![] }))
}

#[test]
fn a_bare_string_imports_the_type_under_its_own_name() {
    assert_eq!(
        ImportedType::parse(&Value::String(s("Foo"))),
        Some(ImportedType { name: s("Foo"), alias: s("Foo"), explicit: false })
    );
}

#[test]
fn an_object_imports_the_type_under_its_alias() {
    let value = Value::Object(vec![
        (s("name"), Value::String(s("Foo"))),
        (s("as"), Value::String(s("Bar"))),
    ]);
    assert_eq!(
        ImportedType::parse(&value),
        Some(ImportedType { name: s("Foo"), alias: s("Bar"), explicit: true })
    );
}

#[test]
fn an_alias_equal_to_the_name_is_still_explicit() {
    let value = Value::Object(vec![
        (s("as"), Value::String(s("Foo"))),
        (s("name"), Value::String(s("Foo"))),
    ]);
    assert_eq!(
        ImportedType::parse(&value),
        Some(ImportedType { name: s("Foo"), alias: s("Foo"), explicit: true })
    );
}

#[test]
fn other_shapes_are_no_imported_type() {
    assert_eq!(ImportedType::parse(&Value::Enum(s("Foo"))), None);
    assert_eq!(ImportedType::parse(&Value::Int(1)), None);
    assert_eq!(ImportedType::parse(&Value::Null), None);
    assert_eq!(ImportedType::parse(&Value::List(vec![Value::String(s("Foo"))])), None);
    assert_eq!(
        ImportedType::parse(&Value::Object(vec![(s("name"), Value::String(s("Foo")))])),
        None
    );
    assert_eq!(
        ImportedType::parse(&Value::Object(vec![(s("as"), Value::String(s("Bar")))])),
        None
    );
    assert_eq!(
        ImportedType::parse(&Value::Object(vec![
            (s("name"), Value::String(s("Foo"))),
            (s("as"), Value::Enum(s("Bar"))),
        ])),
        None
    );
}

#[test]
fn a_reference_is_read_from_the_id_of_an_object() {
    let value = Value::Object(vec![(s("id"), Value::String(s("QmDeployment")))]);
    assert_eq!(SchemaReference::parse(&value), Some(SchemaReference::new(s("QmDeployment"))));
}

#[test]
fn other_shapes_are_no_reference() {
    assert_eq!(SchemaReference::parse(&Value::String(s("QmDeployment"))), None);
    assert_eq!(SchemaReference::parse(&Value::Object(vec![])), None);
    assert_eq!(
        SchemaReference::parse(&Value::Object(vec![(s("id"), Value::Int(7))])),
        None
    );
    assert_eq!(
        SchemaReference::parse(&Value::Object(vec![(s("name"), Value::String(s("x")))])),
        None
    );
}

#[test]
fn a_reference_is_written_as_its_id() {
    assert_eq!(SchemaReference::new(s("QmDeployment")).to_string(), "QmDeployment");
}

#[test]
fn resolving_finds_the_deployed_schema() {
    let schema = empty_schema();
    let store = Arc::new(FakeStore { deployments: vec![(s("QmA"), Some(schema.clone()))] });
    let found = SchemaReference::new(s("QmA")).resolve(store).expect("deployed");
    assert!(Arc::ptr_eq(&found, &schema));
}

#[test]
fn resolving_against_a_store_without_an_entry_reports_the_schema() {
    let store = Arc::new(FakeStore { deployments: vec![(s("QmA"), Some(empty_schema()))] });
    let reference = SchemaReference::new(s("QmB"));
    assert_eq!(
        reference.resolve(store),
        Err(SchemaImportError::ImportedSchemaNotFound(SchemaReference::new(s("QmB"))))
    );
}

#[test]
fn resolving_a_known_deployment_without_a_schema_reports_the_subgraph() {
    let store = Arc::new(FakeStore { deployments: vec![(s("QmB"), None)] });
    let reference = SchemaReference::new(s("QmB"));
    assert_eq!(
        reference.resolve(store),
        Err(SchemaImportError::ImportedSubgraphNotFound(SchemaReference::new(s("QmB"))))
    );
}

#[test]
fn the_answer_of_the_store_decides_the_outcome() {
    let reference = SchemaReference::new(s("QmC"));
    let schema = empty_schema();
    assert!(Arc::ptr_eq(&reference.resolved(Ok(schema.clone())).unwrap(), &schema));
    assert_eq!(
        reference.resolved(Err(StoreLookupError::NoEntry)),
        Err(SchemaImportError::ImportedSchemaNotFound(reference.clone()))
    );
    assert_eq!(
        reference.resolved(Err(StoreLookupError::NotDeployed)),
        Err(SchemaImportError::ImportedSubgraphNotFound(reference.clone()))
    );
}

#[test]
fn import_errors_name_the_reference() {
    let reference = SchemaReference::new(s("QmC"));
    assert_eq!(
        SchemaImportError::ImportedSchemaNotFound(reference.clone()).to_string(),
        "Schema for imported subgraph `QmC` was not found"
    );
    assert_eq!(
        SchemaImportError::ImportedSubgraphNotFound(reference.clone()).to_string(),
        "Subgraph for imported schema `QmC` is not deployed"
    );
    assert_eq!(
        SchemaImportError::ImportCycle(reference).to_string(),
        "Import of subgraph `QmC` closes a cycle"
    );
}

#[test]
fn a_path_refuses_to_enter_a_subgraph_twice() {
    let a = SchemaReference::new(s("QmA"));
    let b = SchemaReference::new(s("QmB"));
    let mut path = ImportPath::new();
    assert!(!path.contains(&a));
    assert_eq!(path.enter(&a), Ok(()));
    assert_eq!(path.enter(&b), Ok(()));
    assert!(path.contains(&a));
    assert_eq!(path.enter(&a), Err(SchemaImportError::ImportCycle(a.clone())));
    assert_eq!(path.subgraphs, vec![s("QmA"), s("QmB")]);
    path.leave();
    assert_eq!(path.subgraphs, vec![s("QmA")]);
    assert_eq!(path.enter(&b), Ok(()));
    path.leave();
    path.leave();
    path.leave();
    assert!(path.subgraphs.is_empty());
    assert_eq!(path.enter(&a), Ok(()));
}

#[test]
fn a_reference_back_into_the_path_is_a_cycle_and_the_store_is_not_asked() {
    let store = Arc::new(FakeStore { deployments: vec![(s("QmA"), Some(empty_schema()))] });
    let a = SchemaReference::new(s("QmA"));
    let b = SchemaReference::new(s("QmB"));
    let mut path = ImportPath::new();
    assert!(path.resolve(&a, store.clone()).is_ok());
    assert_eq!(path.enter(&a), Ok(()));
    assert_eq!(
        path.resolve(&a, store.clone()),
        Err(SchemaImportError::ImportCycle(a.clone()))
    );
    assert_eq!(
        path.resolve(&b, store),
        Err(SchemaImportError::ImportedSchemaNotFound(b.clone()))
    );
}
