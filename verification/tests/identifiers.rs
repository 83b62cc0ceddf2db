use subgraph_schema::ast::{Definition, Document, Field, ObjectType, Type};
use subgraph_schema::schema::{IdValueError, Schema};
use subgraph_schema::store::{parse_hex, EntityKey, StoreValue};

fn s(text: &str) -> String {
    text.to_string()
}

fn named(name: &str) -> Type {
    Type::NamedType(s(name))
}

fn non_null(inner: Type) -> Type {
    Type::NonNullType(Box::new(inner))
}

fn field(name: &str, field_type: Type) -> Field {
    Field { name: s(name), arguments: vec![], field_type, directives: vec![] }
}

fn entity(name: &str, fields: Vec<Field>) -> Definition {
    Definition::Object(ObjectType {
        name: s(name),
        implements_interfaces: vec![],
        directives: vec![],
        fields,
    })
}

fn schema() -> Schema {
    Schema::new(Document {
        definitions: vec![
            entity("Account", vec![field("id", non_null(named("String")))]),
            entity("Token", vec![field("id", non_null(named("ID"))), field("name", named("String"))]),
            entity("Block", vec![field("hash", named("Bytes")), field("id", non_null(named("Bytes")))]),
            entity("Counter", vec![field("id", non_null(named("Int")))]),
            entity("Orphan", vec![field("name", named("String"))]),
            Definition::Other(s("Color")),
        ],
    })
}

fn key(entity_type: &str, entity_id: &str) -> EntityKey {
    EntityKey { entity_type: s(entity_type), entity_id: s(entity_id) }
}

#[test]
fn a_string_id_is_kept_verbatim() {
    assert_eq!(schema().id_value(&key("Account", "abc")), Ok(StoreValue::String(s("abc"))));
}

#[test]
fn an_id_typed_id_is_kept_verbatim() {
    assert_eq!(schema().id_value(&key("Token", "0xABC")), Ok(StoreValue::String(s("0xABC"))));
}

#[test]
fn a_bytes_id_is_decoded_from_hex() {
    assert_eq!(
        schema().id_value(&key("Block", "0x00ff10Ab")),
        Ok(StoreValue::Bytes(vec![0x00, 0xff, 0x10, 0xab]))
    );
}

#[test]
fn a_bytes_id_needs_no_prefix() {
    assert_eq!(schema().id_value(&key("Block", "DEADbeef")), Ok(StoreValue::Bytes(vec![0xde, 0xad, 0xbe, 0xef])));
}

#[test]
fn a_malformed_bytes_id_is_a_decode_error() {
    assert_eq!(
        schema().id_value(&key("Block", "0xzz")),
        Err(IdValueError::MalformedHexId(s("Block"), s("0xzz")))
    );
    assert_eq!(
        schema().id_value(&key("Block", "abc")),
        Err(IdValueError::MalformedHexId(s("Block"), s("abc")))
    );
}

#[test]
fn an_int_id_is_an_illegal_id_type() {
    assert_eq!(
        schema().id_value(&key("Counter", "abc")),
        Err(IdValueError::IllegalIdType(s("Counter"), s("Int")))
    );
}

#[test]
fn an_unknown_entity_type_is_reported() {
    assert_eq!(
        schema().id_value(&key("Nothing", "1")),
        Err(IdValueError::UnknownEntityType(s("Nothing"), s("1")))
    );
    assert_eq!(
        schema().id_value(&key("Color", "1")),
        Err(IdValueError::UnknownEntityType(s("Color"), s("1")))
    );
}

#[test]
fn a_type_without_an_id_field_is_reported() {
    assert_eq!(schema().id_value(&key("Orphan", "1")), Err(IdValueError::IdFieldMissing(s("Orphan"))));
}

#[test]
fn id_errors_are_put_in_words() {
    assert_eq!(
        IdValueError::UnknownEntityType(s("Nothing"), s("1")).to_string(),
        "Entity Nothing[1]: unknown entity type `Nothing`"
    );
    assert_eq!(
        IdValueError::IllegalIdType(s("Counter"), s("Int")).to_string(),
        "Entity type Counter uses illegal type Int for id column"
    );
    assert_eq!(
        IdValueError::MalformedHexId(s("Block"), s("0xzz")).to_string(),
        "Entity Block[0xzz]: id is not a hex string"
    );
    assert_eq!(IdValueError::IdFieldMissing(s("Orphan")).to_string(), "Entity type Orphan has no id field");
}

#[test]
fn id_value_is_the_same_on_every_call() {
    let schema = schema();
    let k = key("Block", "0x0102");
    assert_eq!(schema.id_value(&k), schema.id_value(&k));
}

#[test]
fn hex_is_read_two_digits_to_the_byte() {
    assert_eq!(parse_hex("0a"), Some(vec![10]));
    assert_eq!(parse_hex("0x0a"), Some(vec![10]));
    assert_eq!(parse_hex("0xFf00"), Some(vec![255, 0]));
    assert_eq!(parse_hex("10"), Some(vec![16]));
    assert_eq!(parse_hex("0123456789abcdef"), Some(vec![0x01, 0x23, 0x45, 0x67, 0x89, 0xab, 0xcd, 0xef]));
    assert_eq!(parse_hex("ABCDEF"), Some(vec![0xab, 0xcd, 0xef]));
}

#[test]
fn no_digits_stand_for_no_bytes() {
    assert_eq!(parse_hex(""), Some(vec![]));
    assert_eq!(parse_hex("0x"), Some(vec![]));
}

#[test]
fn hex_with_an_odd_number_of_digits_is_refused() {
    assert_eq!(parse_hex("0"), None);
    assert_eq!(parse_hex("0x0"), None);
    assert_eq!(parse_hex("abc"), None);
}

#[test]
fn hex_with_another_character_is_refused() {
    assert_eq!(parse_hex("0g"), None);
    assert_eq!(parse_hex("0X0a"), None);
    assert_eq!(parse_hex("0x0x0a"), None);
    assert_eq!(parse_hex(" 0a"), None);
    assert_eq!(parse_hex("0a "), None);
    assert_eq!(parse_hex("é0"), None);
    assert_eq!(parse_hex("0x€€"), None);
    assert_eq!(parse_hex("/0"), None);
    assert_eq!(parse_hex(":0"), None);
    assert_eq!(parse_hex("@A"), None);
    assert_eq!(parse_hex("Ga"), None);
    assert_eq!(parse_hex("`a"), None);
}
