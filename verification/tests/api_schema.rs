use subgraph_schema::api_schema::{
    add_introspection_schema, introspection_fields, ApiSchema, ApiSchemaError,
};
use subgraph_schema::ast::{
    Definition, Document, Field, InputValue, InterfaceType, ObjectType, Type,
};
use subgraph_schema::schema::Schema;
use subgraph_schema::validation::validate;

fn s(text: &str) -> String {
    text.to_string()
}

fn named(name: &str) -> Type {
    Type::NamedType(s(name))
}

fn non_null(inner: Type) -> Type {
    Type::NonNullType(Box::new(inner))
}

fn field(name: &str, field_type: Type) -> Field {
    Field { name: s(name), arguments: vec![], field_type, directives: vec![] }
}

fn object(name: &str, implements: &[&str], fields: Vec<Field>) -> ObjectType {
    ObjectType {
        name: s(name),
        implements_interfaces: implements.iter().map(|i| s(i)).collect(),
        directives: vec![],
        fields,
    }
}

fn id() -> Field {
    field("id", non_null(named("ID")))
}

fn api_document() -> Document {
    Document {
        definitions: vec![
            Definition::Interface(InterfaceType { name: s("Named"), directives: vec![], fields: vec![id()] }),
            Definition::Object(object("Band", &["Named"], vec![id()])),
            Definition::Object(object("Query", &[], vec![id(), field("bands", named("Band"))])),
            Definition::Object(object("Subscription", &[], vec![id()])),
            Definition::Other(s("Color")),
        ],
    }
}

fn fragment() -> Document {
    Document {
        definitions: vec![
            Definition::Object(object("__Schema", &[], vec![field("types", named("__Type"))])),
            Definition::Object(object("__Type", &[], vec![field("name", named("String"))])),
            Definition::Other(s("__TypeKind")),
        ],
    }
}

fn names(fields: &Vec<Field>) -> Vec<String> {
    fields.iter().map(|f| f.name.clone()).collect()
}

fn keys(api: &ApiSchema) -> Vec<String> {
    let mut keys: Vec<String> = api
        .definitions()
        .iter()
        .filter_map(|d| match d {
            Definition::Object(t) if api.object_type(&t.name).is_some() => Some(t.name.clone()),
            _ => None,
        })
        .collect();
    keys.sort();
    keys.dedup();
    keys
}

#[test]
fn the_introspection_fields_are_schema_and_type() {
    assert_eq!(
        introspection_fields(),
        vec![
            field("__schema", non_null(named("__Schema"))),
            Field {
                name: s("__type"),
                arguments: vec![InputValue {
                    name: s("name"),
                    value_type: non_null(named("String")),
                    default_value: None,
                    directives: vec![],
                }],
                field_type: named("__Type"),
                directives: vec![],
            },
        ]
    );
}

#[test]
fn introspection_is_mixed_into_the_declarations() {
    let mut document = api_document();
    add_introspection_schema(&mut document, &fragment());
    assert_eq!(document.definitions.len(), 8);
    assert_eq!(&document.definitions[..2], &api_document().definitions[..2]);
    assert_eq!(&document.definitions[3..5], &api_document().definitions[3..]);
    assert_eq!(&document.definitions[5..], &fragment().definitions[..]);
    match &document.definitions[2] {
        Definition::Object(query) => {
            assert_eq!(query.name, "Query");
            assert_eq!(names(&query.fields), vec![s("id"), s("bands"), s("__schema"), s("__type")]);
        }
        other => panic!("{:?}", other),
    }
}

#[test]
fn without_a_query_type_only_the_declarations_are_added() {
    let mut document = Document { definitions: vec![Definition::Object(object("Band", &[], vec![id()]))] };
    add_introspection_schema(&mut document, &fragment());
    assert_eq!(document.definitions.len(), 4);
    assert_eq!(document.definitions[0], Definition::Object(object("Band", &[], vec![id()])));
}

#[test]
fn only_the_first_query_type_gets_the_fields() {
    let mut document = Document {
        definitions: vec![
            Definition::Interface(InterfaceType { name: s("Query"), directives: vec![], fields: vec![] }),
            Definition::Object(object("Query", &[], vec![])),
            Definition::Object(object("Query", &[], vec![])),
        ],
    };
    add_introspection_schema(&mut document, &Document { definitions: vec![] });
    match (&document.definitions[0], &document.definitions[1], &document.definitions[2]) {
        (Definition::Interface(i), Definition::Object(first), Definition::Object(second)) => {
            assert!(i.fields.is_empty());
            assert_eq!(names(&first.fields), vec![s("__schema"), s("__type")]);
            assert!(second.fields.is_empty());
        }
        other => panic!("{:?}", other),
    }
}

#[test]
fn the_api_schema_picks_out_the_root_types() {
    let api = ApiSchema::from_api_schema(Schema::new(api_document()), &fragment()).ok().expect("has Query");
    assert_eq!(api.query_type.name, "Query");
    assert_eq!(names(&api.query_type.fields), vec![s("id"), s("bands"), s("__schema"), s("__type")]);
    assert_eq!(api.subscription_type.as_ref().map(|t| t.name.clone()), Some(s("Subscription")));
}

#[test]
fn the_api_schema_has_every_object_type_by_name() {
    let api = ApiSchema::from_api_schema(Schema::new(api_document()), &fragment()).ok().expect("has Query");
    assert_eq!(api.object_types.len(), 5);
    assert_eq!(keys(&api), vec![s("Band"), s("Query"), s("Subscription"), s("__Schema"), s("__Type")]);
    assert_eq!(**api.object_type("Query").unwrap(), *api.query_type);
    assert_eq!(**api.object_type("Band").unwrap(), object("Band", &["Named"], vec![id()]));
    assert!(api.object_type("Named").is_none());
    assert!(api.object_type("Color").is_none());
    assert!(api.object_type("__TypeKind").is_none());
}

#[test]
fn the_api_schema_keeps_the_schema_and_its_tables() {
    let schema = Schema::new(api_document());
    let api = ApiSchema::from_api_schema(Schema::new(api_document()), &fragment()).ok().expect("has Query");
    assert_eq!(api.schema().interfaces_for_type, schema.interfaces_for_type);
    assert_eq!(*api.types_for_interface(), schema.types_for_interface);
    assert_eq!(api.types_for_interface().get("Named").unwrap().len(), 1);
    assert_eq!(api.document(), &api.schema().document);
    assert_eq!(api.definitions(), &api.document().definitions);
    assert_eq!(api.definitions().len(), 8);
}

#[test]
fn a_schema_without_a_subscription_type_has_none() {
    let document = Document { definitions: vec![Definition::Object(object("Query", &[], vec![id()]))] };
    let api = ApiSchema::from_api_schema(Schema::new(document), &fragment()).ok().expect("has Query");
    assert!(api.subscription_type.is_none());
}

#[test]
fn a_schema_without_a_query_type_cannot_serve() {
    let document = Document { definitions: vec![Definition::Object(object("Band", &[], vec![id()]))] };
    let r = ApiSchema::from_api_schema(Schema::new(document), &fragment());
    assert_eq!(r.err(), Some(ApiSchemaError::MissingRootQuery));
    assert_eq!(ApiSchemaError::MissingRootQuery.to_string(), "no root `Query` in the schema");
}

#[test]
fn a_query_type_of_the_fragment_serves_as_root() {
    let document = Document { definitions: vec![Definition::Object(object("Band", &[], vec![id()]))] };
    let with_query = Document { definitions: vec![Definition::Object(object("Query", &[], vec![]))] };
    let api = ApiSchema::from_api_schema(Schema::new(document), &with_query).ok().expect("has Query");
    assert_eq!(names(&api.query_type.fields), vec![s("__schema"), s("__type")]);
}

#[test]
fn of_two_object_types_with_one_name_the_later_is_kept_by_name() {
    let document = Document {
        definitions: vec![
            Definition::Object(object("Query", &[], vec![id()])),
            Definition::Object(object("Band", &[], vec![id()])),
            Definition::Object(object("Band", &[], vec![id(), field("name", named("String"))])),
        ],
    };
    let api = ApiSchema::from_api_schema(Schema::new(document), &fragment()).ok().expect("has Query");
    assert_eq!(api.object_type("Band").unwrap().fields.len(), 2);
}

#[test]
fn a_valid_schema_with_a_query_type_builds() {
    let schema = validate(api_document()).expect("valid");
    let api = ApiSchema::from_api_schema(schema, &fragment()).ok().expect("has Query");
    assert_eq!(api.query_type.name, "Query");
}

#[test]
fn building_twice_from_equal_schemas_gives_the_same_names() {
    let first = ApiSchema::from_api_schema(Schema::new(api_document()), &fragment()).ok().expect("has Query");
    let second = ApiSchema::from_api_schema(Schema::new(api_document()), &fragment()).ok().expect("has Query");
    assert_eq!(keys(&first), keys(&second));
    assert_eq!(first.object_types.len(), second.object_types.len());
    assert_eq!(first.document(), second.document());
    for name in keys(&first) {
        assert_eq!(first.object_type(&name), second.object_type(&name));
    }
}
