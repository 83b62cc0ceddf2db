use subgraph_schema::ast::{Definition, Directive, Document, ObjectType, Value};
use subgraph_schema::fulltext::{
    fulltext_definitions, has_fulltext_shape, FulltextAlgorithm, FulltextConfig,
    FulltextDefinition,
};

fn s(text: &str) -> String {
    text.to_string()
}

fn named_field(name: &str) -> Value {
    Value::Object(vec![(s("name"), Value::String(s(name)))])
}

fn fulltext(name: Value, algorithm: Value, included: Value) -> Directive {
    Directive {
        name: s("fulltext"),
        arguments: vec![(s("name"), name), (s("algorithm"), algorithm), (s("include"), included)],
    }
}

fn one_entity(fields: Vec<Value>) -> Value {
    Value::List(vec![Value::Object(vec![(s("fields"), Value::List(fields))])])
}

#[test]
fn algorithm_rank_is_read() {
    assert_eq!(FulltextAlgorithm::try_from("rank"), Ok(FulltextAlgorithm::Rank));
}

#[test]
fn algorithm_proximity_rank_is_read() {
    assert_eq!(FulltextAlgorithm::try_from("proximityRank"), Ok(FulltextAlgorithm::ProximityRank));
}

#[test]
fn algorithm_of_another_token_is_refused_with_the_token_and_both_alternatives() {
    assert_eq!(
        FulltextAlgorithm::try_from("bm25"),
        Err(s("The provided fulltext search algorithm bm25 is invalid. It must be one of: rank, proximityRank"))
    );
}

#[test]
fn algorithm_tokens_are_case_sensitive() {
    assert!(FulltextAlgorithm::try_from("Rank").is_err());
    assert!(FulltextAlgorithm::try_from("proximityrank").is_err());
    assert!(FulltextAlgorithm::try_from("").is_err());
}

#[test]
fn extract_reads_name_algorithm_and_fields() {
    let directive = fulltext(
        Value::String(s("search")),
        Value::Enum(s("rank")),
        one_entity(vec![named_field("title")]),
    );
    let definition = FulltextDefinition::extract(&directive);
    assert_eq!(definition.name, "search");
    assert_eq!(definition.config, FulltextConfig { language: (), algorithm: FulltextAlgorithm::Rank });
    assert_eq!(definition.included_fields.len(), 1);
    assert!(definition.included_fields.contains("title"));
    assert!(!definition.included_fields.contains("body"));
}

#[test]
fn extract_collects_every_field_once() {
    let directive = fulltext(
        Value::String(s("bandSearch")),
        Value::Enum(s("proximityRank")),
        one_entity(vec![named_field("name"), named_field("bio"), named_field("name")]),
    );
    let definition = FulltextDefinition::extract(&directive);
    assert_eq!(definition.name, "bandSearch");
    assert_eq!(definition.config.algorithm, FulltextAlgorithm::ProximityRank);
    assert_eq!(definition.included_fields.len(), 2);
    assert!(definition.included_fields.contains("name"));
    assert!(definition.included_fields.contains("bio"));
}

#[test]
fn try_extract_agrees_with_extract_on_a_well_formed_annotation() {
    let directive = fulltext(
        Value::String(s("search")),
        Value::Enum(s("rank")),
        one_entity(vec![named_field("title")]),
    );
    assert!(has_fulltext_shape(&directive));
    let definition = FulltextDefinition::try_extract(&directive).expect("well formed");
    assert_eq!(definition.name, "search");
    assert!(definition.included_fields.contains("title"));
}

#[test]
fn try_extract_refuses_a_name_that_is_no_string() {
    let directive = fulltext(
        Value::Enum(s("search")),
        Value::Enum(s("rank")),
        one_entity(vec![named_field("title")]),
    );
    assert!(!has_fulltext_shape(&directive));
    assert!(FulltextDefinition::try_extract(&directive).is_none());
}

#[test]
fn try_extract_refuses_an_algorithm_written_as_a_string() {
    let directive = fulltext(
        Value::String(s("search")),
        Value::String(s("rank")),
        one_entity(vec![named_field("title")]),
    );
    assert!(FulltextDefinition::try_extract(&directive).is_none());
}

#[test]
fn try_extract_refuses_an_unknown_algorithm() {
    let directive = fulltext(
        Value::String(s("search")),
        Value::Enum(s("fuzzy")),
        one_entity(vec![named_field("title")]),
    );
    assert!(FulltextDefinition::try_extract(&directive).is_none());
}

#[test]
fn try_extract_refuses_two_included_entities() {
    let entity = Value::Object(vec![(s("fields"), Value::List(vec![named_field("title")]))]);
    let directive = fulltext(
        Value::String(s("search")),
        Value::Enum(s("rank")),
        Value::List(vec![entity.clone(), entity]),
    );
    assert!(FulltextDefinition::try_extract(&directive).is_none());
}

#[test]
fn try_extract_refuses_an_empty_field_list() {
    let directive =
        fulltext(Value::String(s("search")), Value::Enum(s("rank")), one_entity(vec![]));
    assert!(FulltextDefinition::try_extract(&directive).is_none());
}

#[test]
fn try_extract_refuses_a_field_without_a_name() {
    let directive = fulltext(
        Value::String(s("search")),
        Value::Enum(s("rank")),
        one_entity(vec![Value::Object(vec![(s("title"), Value::String(s("title")))])]),
    );
    assert!(FulltextDefinition::try_extract(&directive).is_none());
}

#[test]
fn try_extract_refuses_a_missing_argument() {
    let directive = Directive {
        name: s("fulltext"),
        arguments: vec![(s("name"), Value::String(s("search")))],
    };
    assert!(FulltextDefinition::try_extract(&directive).is_none());
}

#[test]
fn the_first_argument_of_a_name_counts() {
    let directive = Directive {
        name: s("fulltext"),
        arguments: vec![
            (s("name"), Value::String(s("first"))),
            (s("name"), Value::String(s("second"))),
            (s("algorithm"), Value::Enum(s("rank"))),
            (s("include"), one_entity(vec![named_field("title")])),
        ],
    };
    assert_eq!(FulltextDefinition::extract(&directive).name, "first");
}

fn annotated(name: &str, directives: Vec<Directive>) -> Definition {
    Definition::Object(ObjectType {
        name: s(name),
        implements_interfaces: vec![],
        directives,
        fields: vec![],
    })
}

#[test]
fn a_schema_without_fulltext_annotations_has_no_indexes() {
    assert!(fulltext_definitions(&Document { definitions: vec![] }).is_empty());
    assert!(fulltext_definitions(&Document {
        definitions: vec![
            annotated("Band", vec![Directive { name: s("entity"), arguments: vec![] }]),
            Definition::Other(s("Color")),
        ],
    })
    .is_empty());
}

#[test]
fn the_indexes_of_a_schema_come_in_source_order() {
    let search = |name: &str, algorithm: &str, field: &str| {
        fulltext(
            Value::String(s(name)),
            Value::Enum(s(algorithm)),
            one_entity(vec![named_field(field)]),
        )
    };
    let definitions = fulltext_definitions(&Document {
        definitions: vec![
            annotated(
                "Band",
                vec![
                    search("bands", "rank", "name"),
                    Directive { name: s("entity"), arguments: vec![] },
                    search("broken", "fuzzy", "name"),
                    search("bios", "proximityRank", "bio"),
                ],
            ),
            Definition::Other(s("Color")),
            annotated("Song", vec![search("songs", "rank", "title")]),
        ],
    });
    let names: Vec<&str> = definitions.iter().map(|d| d.name.as_str()).collect();
    assert_eq!(names, vec!["bands", "bios", "songs"]);
    assert_eq!(definitions[1].config.algorithm, FulltextAlgorithm::ProximityRank);
    assert!(definitions[2].included_fields.contains("title"));
}
