use subgraph_schema::ast::{
    Definition, Directive, Document, Field, InterfaceType, ObjectType, Type, Value,
};
use subgraph_schema::validation::{check_document, validate, SchemaValidationError, Strings};

fn s(text: &str) -> String {
    text.to_string()
}

fn named(name: &str) -> Type {
    Type::NamedType(s(name))
}

fn non_null(inner: Type) -> Type {
    Type::NonNullType(Box::new(inner))
}

fn list(inner: Type) -> Type {
    Type::ListType(Box::new(inner))
}

fn field(name: &str, field_type: Type) -> Field {
    Field { name: s(name), arguments: vec![], field_type, directives: vec![] }
}

fn id() -> Field {
    field("id", non_null(named("ID")))
}

fn object(name: &str, implements: &[&str], directives: Vec<Directive>, fields: Vec<Field>) -> Definition {
    Definition::Object(ObjectType {
        name: s(name),
        implements_interfaces: implements.iter().map(|i| s(i)).collect(),
        directives,
        fields,
    })
}

fn interface(name: &str, fields: Vec<Field>) -> Definition {
    Definition::Interface(InterfaceType { name: s(name), directives: vec![], fields })
}

fn named_field(name: &str) -> Value {
    Value::Object(vec![(s("name"), Value::String(s(name)))])
}

fn fulltext(name: &str, algorithm: &str, fields: &[&str]) -> Directive {
    Directive {
        name: s("fulltext"),
        arguments: vec![
            (s("name"), Value::String(s(name))),
            (s("algorithm"), Value::Enum(s(algorithm))),
            (
                s("include"),
                Value::List(vec![Value::Object(vec![(
                    s("fields"),
                    Value::List(fields.iter().map(|f| named_field(f)).collect()),
                )])]),
            ),
        ],
    }
}

fn import(types: Vec<Value>, from: &str) -> Directive {
    Directive {
        name: s("import"),
        arguments: vec![
            (s("types"), Value::List(types)),
            (s("from"), Value::Object(vec![(s("id"), Value::String(s(from)))])),
        ],
    }
}

fn aliased(name: &str, alias: &str) -> Value {
    Value::Object(vec![(s("name"), Value::String(s(name))), (s("as"), Value::String(s(alias)))])
}

fn valid_document() -> Document {
    Document {
        definitions: vec![
            interface("Named", vec![field("name", non_null(named("String")))]),
            object(
                "Band",
                &["Named"],
                vec![
                    fulltext("bandSearch", "rank", &["name", "bio"]),
                    import(vec![Value::String(s("Label")), aliased("Artist", "Musician")], "QmOther"),
                    Directive { name: s("entity"), arguments: vec![] },
                ],
                vec![id(), field("name", non_null(named("String"))), field("bio", named("String"))],
            ),
            object("Song", &[], vec![], vec![field("id", non_null(named("Bytes"))), field("band", named("Band"))]),
            object("Account", &[], vec![], vec![field("id", list(non_null(named("String"))))]),
            Definition::Other(s("Color")),
        ],
    }
}

fn errors_of(definitions: Vec<Definition>) -> Vec<SchemaValidationError> {
    check_document(&Document { definitions })
}

#[test]
fn a_valid_schema_passes_and_keeps_its_declarations() {
    let schema = validate(valid_document()).expect("valid");
    assert_eq!(schema.document, valid_document());
    assert_eq!(schema.types_for_interface.get("Named").unwrap().len(), 1);
    assert!(check_document(&valid_document()).is_empty());
}

#[test]
fn an_empty_schema_is_valid() {
    assert!(validate(Document { definitions: vec![] }).is_ok());
}

#[test]
fn an_undeclared_interface_is_reported() {
    assert_eq!(
        errors_of(vec![object("Dog", &["Animal"], vec![], vec![id()])]),
        vec![SchemaValidationError::InterfaceUndefined(s("Animal"))]
    );
}

#[test]
fn an_object_type_of_that_name_is_no_interface() {
    assert_eq!(
        errors_of(vec![
            object("Animal", &[], vec![], vec![id()]),
            object("Dog", &["Animal"], vec![], vec![id()]),
        ]),
        vec![SchemaValidationError::InterfaceUndefined(s("Animal"))]
    );
}

#[test]
fn missing_interface_fields_are_listed_in_the_order_of_the_interface() {
    assert_eq!(
        errors_of(vec![
            interface(
                "Animal",
                vec![
                    field("legs", named("Int")),
                    field("name", non_null(named("String"))),
                    field("sound", named("String")),
                ],
            ),
            object("Dog", &["Animal"], vec![], vec![id(), field("name", non_null(named("String")))]),
        ]),
        vec![SchemaValidationError::InterfaceFieldsMissing(
            s("Dog"),
            s("Animal"),
            Strings(vec![s("legs"), s("sound")])
        )]
    );
}

#[test]
fn an_interface_field_with_another_type_counts_as_missing() {
    assert_eq!(
        errors_of(vec![
            interface("Animal", vec![field("name", non_null(named("String")))]),
            object("Dog", &["Animal"], vec![], vec![id(), field("name", named("String"))]),
        ]),
        vec![SchemaValidationError::InterfaceFieldsMissing(s("Dog"), s("Animal"), Strings(vec![s("name")]))]
    );
}

#[test]
fn a_missing_id_field_is_reported() {
    assert_eq!(
        errors_of(vec![object("Dog", &[], vec![], vec![field("name", named("String"))])]),
        vec![SchemaValidationError::IdFieldMissing(s("Dog"))]
    );
}

#[test]
fn an_id_field_of_another_type_is_reported_with_its_base_type() {
    assert_eq!(
        errors_of(vec![object("Dog", &[], vec![], vec![field("id", non_null(list(named("Int"))))])]),
        vec![SchemaValidationError::IllegalIdType(s("Dog"), s("Int"))]
    );
}

#[test]
fn id_string_and_bytes_are_legal_id_types_under_any_wrapper() {
    assert!(errors_of(vec![
        object("A", &[], vec![], vec![field("id", named("ID"))]),
        object("B", &[], vec![], vec![field("id", non_null(named("String")))]),
        object("C", &[], vec![], vec![field("id", list(non_null(named("Bytes"))))]),
    ])
    .is_empty());
}

#[test]
fn a_type_name_declared_twice_is_reported_once_for_each_repetition() {
    assert_eq!(
        errors_of(vec![
            object("Dog", &[], vec![], vec![id()]),
            Definition::Other(s("Dog")),
            interface("Cat", vec![]),
            interface("Dog", vec![]),
        ]),
        vec![
            SchemaValidationError::DuplicateTypeName(s("Dog")),
            SchemaValidationError::DuplicateTypeName(s("Dog")),
        ]
    );
}

#[test]
fn a_fulltext_annotation_without_arguments_is_reported_three_times() {
    assert_eq!(
        errors_of(vec![object(
            "Band",
            &[],
            vec![Directive { name: s("fulltext"), arguments: vec![] }],
            vec![id()],
        )]),
        vec![
            SchemaValidationError::FulltextNameUndefined(s("Band")),
            SchemaValidationError::FulltextAlgorithmUndefined(s("Band")),
            SchemaValidationError::FulltextIncludeInvalid(s("Band")),
        ]
    );
}

#[test]
fn an_unknown_fulltext_algorithm_is_reported_with_its_token() {
    assert_eq!(
        errors_of(vec![object(
            "Band",
            &[],
            vec![fulltext("search", "fuzzy", &["id"])],
            vec![id()],
        )]),
        vec![SchemaValidationError::FulltextAlgorithmInvalid(s("fuzzy"))]
    );
}

#[test]
fn a_fulltext_field_that_the_type_lacks_is_reported() {
    assert_eq!(
        errors_of(vec![object(
            "Band",
            &[],
            vec![fulltext("search", "proximityRank", &["name", "bio", "id"])],
            vec![id(), field("bio", named("String"))],
        )]),
        vec![SchemaValidationError::FulltextIncludedFieldInvalid(s("Band"), s("name"))]
    );
}

#[test]
fn a_fulltext_annotation_over_two_entities_is_reported() {
    let entity = Value::Object(vec![(s("fields"), Value::List(vec![named_field("id")]))]);
    let directive = Directive {
        name: s("fulltext"),
        arguments: vec![
            (s("name"), Value::String(s("search"))),
            (s("algorithm"), Value::Enum(s("rank"))),
            (s("include"), Value::List(vec![entity.clone(), entity])),
        ],
    };
    assert_eq!(
        errors_of(vec![object("Band", &[], vec![directive], vec![id()])]),
        vec![SchemaValidationError::FulltextIncludeInvalid(s("Band"))]
    );
}

#[test]
fn a_fulltext_annotation_without_fields_is_reported() {
    assert_eq!(
        errors_of(vec![object("Band", &[], vec![fulltext("search", "rank", &[])], vec![id()])]),
        vec![SchemaValidationError::FulltextIncludeInvalid(s("Band"))]
    );
}

#[test]
fn a_fulltext_field_entry_without_a_name_is_reported() {
    let directive = Directive {
        name: s("fulltext"),
        arguments: vec![
            (s("name"), Value::String(s("search"))),
            (s("algorithm"), Value::Enum(s("rank"))),
            (
                s("include"),
                Value::List(vec![Value::Object(vec![(
                    s("fields"),
                    Value::List(vec![named_field("id"), Value::String(s("id"))]),
                )])]),
            ),
        ],
    };
    assert_eq!(
        errors_of(vec![object("Band", &[], vec![directive], vec![id()])]),
        vec![SchemaValidationError::FulltextIncludeInvalid(s("Band"))]
    );
}

#[test]
fn a_fulltext_name_used_twice_is_reported() {
    assert_eq!(
        errors_of(vec![
            object("Band", &[], vec![fulltext("search", "rank", &["id"])], vec![id()]),
            object("Song", &[], vec![fulltext("search", "rank", &["id"])], vec![id()]),
        ]),
        vec![SchemaValidationError::FulltextNameDuplicate(s("search"))]
    );
}

#[test]
fn an_import_without_arguments_is_reported_twice() {
    assert_eq!(
        errors_of(vec![object(
            "Band",
            &[],
            vec![Directive { name: s("import"), arguments: vec![] }],
            vec![id()],
        )]),
        vec![
            SchemaValidationError::ImportedTypeInvalid(s("Band")),
            SchemaValidationError::ImportedSchemaInvalid(s("Band")),
        ]
    );
}

#[test]
fn each_malformed_imported_type_is_reported() {
    assert_eq!(
        errors_of(vec![object(
            "Band",
            &[],
            vec![import(
                vec![Value::Int(1), Value::String(s("Label")), Value::Enum(s("Artist"))],
                "QmOther",
            )],
            vec![id()],
        )]),
        vec![
            SchemaValidationError::ImportedTypeInvalid(s("Band")),
            SchemaValidationError::ImportedTypeInvalid(s("Band")),
        ]
    );
}

#[test]
fn an_import_from_something_else_than_an_id_is_reported() {
    let directive = Directive {
        name: s("import"),
        arguments: vec![
            (s("types"), Value::List(vec![Value::String(s("Label"))])),
            (s("from"), Value::Object(vec![(s("name"), Value::String(s("other")))])),
        ],
    };
    assert_eq!(
        errors_of(vec![object("Band", &[], vec![directive], vec![id()])]),
        vec![SchemaValidationError::ImportedSchemaInvalid(s("Band"))]
    );
}

#[test]
fn an_alias_used_twice_is_reported() {
    assert_eq!(
        errors_of(vec![
            object(
                "Band",
                &[],
                vec![import(vec![Value::String(s("Label")), aliased("Artist", "Label")], "QmA")],
                vec![id()],
            ),
            object("Song", &[], vec![import(vec![aliased("Tag", "Label")], "QmB")], vec![id()]),
        ]),
        vec![
            SchemaValidationError::ImportAliasCollision(s("Label")),
            SchemaValidationError::ImportAliasCollision(s("Label")),
        ]
    );
}

#[test]
fn every_problem_is_reported_in_one_pass_and_in_order() {
    let errors = validate(Document {
        definitions: vec![
            interface("Animal", vec![field("name", named("String"))]),
            object(
                "Dog",
                &["Animal", "Pet"],
                vec![fulltext("search", "fuzzy", &["name"])],
                vec![field("id", named("Int"))],
            ),
            object("Dog", &[], vec![fulltext("search", "rank", &["id"])], vec![]),
        ],
    })
    .expect_err("invalid");
    assert_eq!(
        errors,
        vec![
            SchemaValidationError::DuplicateTypeName(s("Dog")),
            SchemaValidationError::InterfaceFieldsMissing(s("Dog"), s("Animal"), Strings(vec![s("name")])),
            SchemaValidationError::InterfaceUndefined(s("Pet")),
            SchemaValidationError::IllegalIdType(s("Dog"), s("Int")),
            SchemaValidationError::FulltextAlgorithmInvalid(s("fuzzy")),
            SchemaValidationError::FulltextIncludedFieldInvalid(s("Dog"), s("name")),
            SchemaValidationError::IdFieldMissing(s("Dog")),
            SchemaValidationError::FulltextIncludedFieldInvalid(s("Dog"), s("id")),
            SchemaValidationError::FulltextNameDuplicate(s("search")),
        ]
    );
}

#[test]
fn other_annotations_are_not_looked_at() {
    assert!(errors_of(vec![object(
        "Band",
        &[],
        vec![Directive { name: s("derivedFrom"), arguments: vec![(s("field"), Value::Int(3))] }],
        vec![id()],
    )])
    .is_empty());
}

#[test]
fn names_are_written_with_commas_between_them() {
    assert_eq!(Strings(vec![]).to_string(), "");
    assert_eq!(Strings(vec![s("a")]).to_string(), "a");
    assert_eq!(Strings(vec![s("a"), s("b"), s("c")]).to_string(), "a, b, c");
}

#[test]
fn validation_errors_are_put_in_words() {
    assert_eq!(
        SchemaValidationError::InterfaceUndefined(s("Animal")).to_string(),
        "Interface `Animal` not defined"
    );
    assert_eq!(
        SchemaValidationError::InterfaceFieldsMissing(
            s("Dog"),
            s("Animal"),
            Strings(vec![s("legs"), s("sound")])
        )
        .to_string(),
        "Entity type `Dog` does not satisfy interface `Animal` because it is missing the following fields: legs, sound"
    );
    assert_eq!(
        SchemaValidationError::IllegalIdType(s("Dog"), s("Int")).to_string(),
        "Entity type `Dog` uses illegal type `Int` for its `id` field"
    );
    assert_eq!(
        SchemaValidationError::IdFieldMissing(s("Dog")).to_string(),
        "Entity type `Dog` does not have an `id` field"
    );
    assert_eq!(SchemaValidationError::DuplicateTypeName(s("Dog")).to_string(), "Type `Dog` is defined twice");
    assert_eq!(
        SchemaValidationError::FulltextNameUndefined(s("Band")).to_string(),
        "Fulltext directive on `Band` has no name"
    );
    assert_eq!(
        SchemaValidationError::FulltextAlgorithmUndefined(s("Band")).to_string(),
        "Fulltext directive on `Band` has no algorithm"
    );
    assert_eq!(
        SchemaValidationError::FulltextAlgorithmInvalid(s("fuzzy")).to_string(),
        "Fulltext algorithm is invalid: fuzzy"
    );
    assert_eq!(
        SchemaValidationError::FulltextIncludeInvalid(s("Band")).to_string(),
        "Fulltext directive on `Band` has an invalid include list"
    );
    assert_eq!(
        SchemaValidationError::FulltextIncludedFieldInvalid(s("Band"), s("name")).to_string(),
        "Fulltext field `name` not found on `Band`"
    );
    assert_eq!(
        SchemaValidationError::FulltextNameDuplicate(s("search")).to_string(),
        "Fulltext name `search` is used twice"
    );
    assert_eq!(
        SchemaValidationError::ImportedTypeInvalid(s("Band")).to_string(),
        "Import on `Band` has an invalid list of types"
    );
    assert_eq!(
        SchemaValidationError::ImportedSchemaInvalid(s("Band")).to_string(),
        "Import on `Band` does not name a schema to import from"
    );
    assert_eq!(
        SchemaValidationError::ImportAliasCollision(s("Label")).to_string(),
        "Import alias `Label` is used twice"
    );
}
